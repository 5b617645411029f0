//! What the answers of a store of documents come to. A store that lives elsewhere answers
//! a write with the number of documents it matched and a lookup with the document or
//! nothing; these rules turn such an answer into the outcome that the service reports.

use vstd::prelude::*;
use crate::coordinator::StoreCall;
use crate::errors::{AppError, AppErrorType, AppErrorView};
use crate::failures::{name_not_found, not_found, not_in_project};
use crate::oid::ObjectId;

verus! {

/// Why an insertion that was answered without an identifier is a failure.
pub open spec fn unreadable_id_cause() -> Seq<char> {
    "Error while parsing ObjectId."@
}

/// The failure that reports an insertion that was answered without an identifier.
pub open spec fn unreadable_id() -> AppErrorView {
    AppErrorView { message: None, cause: Some(unreadable_id_cause()), error_type: AppErrorType::DbError }
}

impl StoreCall {
    /// The record that the write is for.
    pub open spec fn record_spec(self) -> ObjectId {
        match self {
            StoreCall::UserAddProject { user, .. } => user,
            StoreCall::UserAddInvitation { user, .. } => user,
            StoreCall::UserRemoveInvitation { user, .. } => user,
            StoreCall::ProjectAddUser { project, .. } => project,
            StoreCall::ProjectAddInvitation { project, .. } => project,
            StoreCall::ProjectRemoveInvitation { project, .. } => project,
        }
    }

    /// The record that the write is for.
    #[verifier::when_used_as_spec(record_spec)]
    pub fn record(self) -> (id: ObjectId)
        ensures
            id == self.record_spec(),
            self.refusal() == not_found(id),
    {
        match self {
            StoreCall::UserAddProject { user, .. } => user,
            StoreCall::UserAddInvitation { user, .. } => user,
            StoreCall::UserRemoveInvitation { user, .. } => user,
            StoreCall::ProjectAddUser { project, .. } => project,
            StoreCall::ProjectAddInvitation { project, .. } => project,
            StoreCall::ProjectRemoveInvitation { project, .. } => project,
        }
    }
}

/// What a write to the record under `id` comes to, given the number of documents that it
/// matched: it went through, whether or not it changed anything, where the record was
/// there, and it failed for want of the record where none was matched.
pub fn record_outcome(matched: u64, id: ObjectId) -> (outcome: Result<(), AppError>)
    ensures
        match outcome {
            Ok(()) => matched > 0,
            Err(e) => matched == 0 && e@ == not_found(id),
        },
{
    if matched > 0 {
        Ok(())
    } else {
        Err(AppError::not_found_error(id.to_hex().as_str()))
    }
}

/// What one of the writes of a transition comes to, given the number of documents that
/// it matched.
pub fn write_outcome(call: StoreCall, matched: u64) -> (outcome: Result<(), AppError>)
    ensures
        match outcome {
            Ok(()) => matched > 0,
            Err(e) => matched == 0 && e@ == call.refusal(),
        },
{
    record_outcome(matched, call.record())
}

/// What an insertion comes to, given the identifier that the store answered with, if it
/// answered with one.
pub fn insert_outcome(inserted: Option<ObjectId>) -> (outcome: Result<ObjectId, AppError>)
    ensures
        match inserted {
            Some(id) => outcome == Ok::<ObjectId, AppError>(id),
            None => outcome matches Err(e) && e@ == unreadable_id(),
        },
{
    match inserted {
        Some(id) => Ok(id),
        None => Err(AppError::db_error("Error while parsing ObjectId.")),
    }
}

/// What a lookup by identifier comes to: the document, or a failure that names the
/// identifier.
pub fn lookup_outcome<T>(found: Option<T>, id: ObjectId) -> (outcome: Result<T, AppError>)
    ensures
        match found {
            Some(record) => outcome matches Ok(r) && r == record,
            None => outcome matches Err(e) && e@ == not_found(id),
        },
{
    match found {
        Some(record) => Ok(record),
        None => Err(AppError::not_found_error(id.to_hex().as_str())),
    }
}

/// What a lookup by name comes to: the document, or a failure that names the name.
pub fn name_outcome<T>(found: Option<T>, username: &str) -> (outcome: Result<T, AppError>)
    ensures
        match found {
            Some(record) => outcome matches Ok(r) && r == record,
            None => outcome matches Err(e) && e@ == name_not_found(username@),
        },
{
    match found {
        Some(record) => Ok(record),
        None => Err(AppError::not_found_error(username)),
    }
}

/// What a check of membership comes to, given whether the user's record lists the
/// project.
pub fn membership_outcome(listed: bool, user_id: ObjectId) -> (outcome: Result<(), AppError>)
    ensures
        match outcome {
            Ok(()) => listed,
            Err(e) => !listed && e@ == not_in_project(user_id),
        },
{
    if listed {
        Ok(())
    } else {
        Err(AppError::not_in_project_error(user_id.to_hex().as_str()))
    }
}

} // verus!
