//! The closed set of failures that the service reports, and how each is shown to a caller.

use vstd::prelude::*;
use vstd::string::StringExecFns;

verus! {

/// The kind of a failure. A kind is stable: callers branch on it, never on a message.
#[derive(Debug, Clone, Copy, PartialEq, Eq, Structural)]
pub enum AppErrorType {
    /// A write to, or a read from, the document store failed.
    DbError,
    /// An identifier or a username does not resolve to a record.
    NotFoundError,
    /// The acting user is not a member of the project that the action is scoped to.
    NotInProject,
    /// A call to the object store, or to the scratch space in front of it, failed.
    S3Error,
    /// The password does not match the stored hash.
    LoginError,
    /// A default avatar could not be drawn.
    AvatarGenerationError,
    /// The username is already taken.
    UserExistError,
    /// A form field is not acceptable.
    UnvalidFormError,
    /// The invited user already holds an invitation to the project, or is a member of it.
    AlreadyInvited,
    /// An avatar payload is malformed or does not hold a decodable image.
    DecodeError,
    /// A later write of a transition failed after an earlier one had succeeded.
    PartialTransition,
}

/// A failure: its kind, the message shown to the caller, and the underlying cause, which is
/// kept for the logs only.
#[derive(Debug)]
pub struct AppError {
    pub message: Option<String>,
    pub cause: Option<String>,
    pub error_type: AppErrorType,
}

/// The mathematical value of an [`AppError`].
pub struct AppErrorView {
    pub message: Option<Seq<char>>,
    pub cause: Option<Seq<char>>,
    pub error_type: AppErrorType,
}

impl View for AppError {
    type V = AppErrorView;

    open spec fn view(&self) -> AppErrorView {
        AppErrorView {
            message: match self.message {
                Some(m) => Some(m@),
                None => None,
            },
            cause: match self.cause {
                Some(c) => Some(c@),
                None => None,
            },
            error_type: self.error_type,
        }
    }
}

/// The body of the response that reports a failure.
#[derive(Debug)]
pub struct AppErrorResponse {
    pub error: String,
}

/// The message shown when a failure carries none of its own.
pub open spec fn default_message() -> Seq<char> {
    "An internal error occured"@
}

/// The message shown for every failure of the object store or of the scratch space.
pub open spec fn internal_message() -> Seq<char> {
    "Internal error"@
}

/// What is shown where an identifier or a name does not resolve.
pub open spec fn not_found_message(ressource_id: Seq<char>) -> Seq<char> {
    "The ressource "@ + ressource_id + " was not found"@
}

/// What is shown to a user who is not a member of the project acted on.
pub open spec fn not_in_project_message(user_id: Seq<char>) -> Seq<char> {
    "The user "@ + user_id + " is not in the project"@
}

/// What is shown where a password does not match.
pub open spec fn login_message(username: Seq<char>) -> Seq<char> {
    "Can not login user "@ + username + "."@
}

/// What is shown where a username is taken.
pub open spec fn user_exist_message(username: Seq<char>) -> Seq<char> {
    "User "@ + username + " already exist."@
}

/// What is logged where a username is taken.
pub open spec fn user_exist_cause(username: Seq<char>) -> Seq<char> {
    "User "@ + username + " already exist"@
}

/// What is shown where the invited user is invited already, or a member.
pub open spec fn already_invited_message(username: Seq<char>) -> Seq<char> {
    "The user "@ + username + " is already invited or a member"@
}

/// What is shown where a transition was written in part only.
pub open spec fn partial_transition_message() -> Seq<char> {
    "The operation was only partly applied"@
}

/// The status code under which a kind of failure is reported.
pub open spec fn status_of(error_type: AppErrorType) -> u16 {
    match error_type {
        AppErrorType::DbError => 500,
        AppErrorType::NotFoundError => 404,
        AppErrorType::NotInProject => 401,
        AppErrorType::LoginError => 401,
        AppErrorType::S3Error => 500,
        AppErrorType::AvatarGenerationError => 500,
        AppErrorType::UserExistError => 401,
        AppErrorType::UnvalidFormError => 401,
        AppErrorType::AlreadyInvited => 409,
        AppErrorType::DecodeError => 400,
        AppErrorType::PartialTransition => 500,
    }
}

impl AppErrorView {
    /// The message that a caller sees.
    pub open spec fn shown(self) -> Seq<char> {
        match self.message {
            Some(m) => m,
            None => default_message(),
        }
    }
}

/// Joins three pieces of text.
fn join3(head: &str, middle: &str, tail: &str) -> (joined: String)
    ensures
        joined@ == head@ + middle@ + tail@,
{
    let mut joined = String::from_str(head);
    joined.append(middle);
    joined.append(tail);
    joined
}

impl AppError {
    /// The message that a caller sees: the failure's own, or a fixed text where it has none.
    pub fn message(&self) -> (shown: String)
        ensures
            shown@ == self@.shown(),
    {
        match &self.message {
            Some(message) => message.clone(),
            None => String::from_str("An internal error occured"),
        }
    }

    /// A failure of the document store. The caller is shown no detail.
    pub fn db_error(error: &str) -> (e: AppError)
        ensures
            e@ == (AppErrorView {
                message: None,
                cause: Some(error@),
                error_type: AppErrorType::DbError,
            }),
    {
        AppError {
            message: None,
            cause: Some(String::from_str(error)),
            error_type: AppErrorType::DbError,
        }
    }

    /// A failure to draw a default avatar. It is reported as a failure of the document
    /// store, since the registration that asked for the avatar cannot be stored without it.
    pub fn avatat_generation_error(error: &str) -> (e: AppError)
        ensures
            e@ == (AppErrorView {
                message: None,
                cause: Some(error@),
                error_type: AppErrorType::DbError,
            }),
    {
        AppError {
            message: None,
            cause: Some(String::from_str(error)),
            error_type: AppErrorType::DbError,
        }
    }

    /// An identifier or a name that does not resolve.
    pub fn not_found_error(ressource_id: &str) -> (e: AppError)
        ensures
            e@ == (AppErrorView {
                message: Some(not_found_message(ressource_id@)),
                cause: Some(ressource_id@),
                error_type: AppErrorType::NotFoundError,
            }),
    {
        AppError {
            message: Some(join3("The ressource ", ressource_id, " was not found")),
            cause: Some(String::from_str(ressource_id)),
            error_type: AppErrorType::NotFoundError,
        }
    }

    /// An action on a project by a user who is not one of its members.
    pub fn not_in_project_error(ressource_id: &str) -> (e: AppError)
        ensures
            e@ == (AppErrorView {
                message: Some(not_in_project_message(ressource_id@)),
                cause: Some(ressource_id@),
                error_type: AppErrorType::NotInProject,
            }),
    {
        AppError {
            message: Some(join3("The user ", ressource_id, " is not in the project")),
            cause: Some(String::from_str(ressource_id)),
            error_type: AppErrorType::NotInProject,
        }
    }

    /// A failed call to the object store.
    pub fn s3_error(error: &str) -> (e: AppError)
        ensures
            e@ == (AppErrorView {
                message: Some(internal_message()),
                cause: Some(error@),
                error_type: AppErrorType::S3Error,
            }),
    {
        AppError {
            message: Some(String::from_str("Internal error")),
            cause: Some(String::from_str(error)),
            error_type: AppErrorType::S3Error,
        }
    }

    /// A failure on the scratch space in front of the object store.
    pub fn fs_error(error: &str) -> (e: AppError)
        ensures
            e@ == (AppErrorView {
                message: Some(internal_message()),
                cause: Some(error@),
                error_type: AppErrorType::S3Error,
            }),
    {
        AppError {
            message: Some(String::from_str("Internal error")),
            cause: Some(String::from_str(error)),
            error_type: AppErrorType::S3Error,
        }
    }

    /// A password that does not match.
    pub fn login_error(username: &str) -> (e: AppError)
        ensures
            e@ == (AppErrorView {
                message: Some(login_message(username@)),
                cause: Some(login_message(username@)),
                error_type: AppErrorType::LoginError,
            }),
    {
        AppError {
            message: Some(join3("Can not login user ", username, ".")),
            cause: Some(join3("Can not login user ", username, ".")),
            error_type: AppErrorType::LoginError,
        }
    }

    /// A registration under a username that is taken.
    pub fn user_exist_error(username: &str) -> (e: AppError)
        ensures
            e@ == (AppErrorView {
                message: Some(user_exist_message(username@)),
                cause: Some(user_exist_cause(username@)),
                error_type: AppErrorType::UserExistError,
            }),
    {
        AppError {
            message: Some(join3("User ", username, " already exist.")),
            cause: Some(join3("User ", username, " already exist")),
            error_type: AppErrorType::UserExistError,
        }
    }

    /// A form that does not pass validation; the caller is shown why.
    pub fn unvalid_form_error(error: &str) -> (e: AppError)
        ensures
            e@ == (AppErrorView {
                message: Some(error@),
                cause: Some(error@),
                error_type: AppErrorType::UnvalidFormError,
            }),
    {
        AppError {
            message: Some(String::from_str(error)),
            cause: Some(String::from_str(error)),
            error_type: AppErrorType::UnvalidFormError,
        }
    }

    /// An invitation of a user who is already invited to the project, or a member of it.
    pub fn already_invited_error(username: &str) -> (e: AppError)
        ensures
            e@ == (AppErrorView {
                message: Some(already_invited_message(username@)),
                cause: Some(username@),
                error_type: AppErrorType::AlreadyInvited,
            }),
    {
        AppError {
            message: Some(join3("The user ", username, " is already invited or a member")),
            cause: Some(String::from_str(username)),
            error_type: AppErrorType::AlreadyInvited,
        }
    }

    /// An avatar payload that cannot be taken apart, decoded, or read as an image.
    pub fn decode_error(error: &str) -> (e: AppError)
        ensures
            e@ == (AppErrorView {
                message: Some(error@),
                cause: Some(error@),
                error_type: AppErrorType::DecodeError,
            }),
    {
        AppError {
            message: Some(String::from_str(error)),
            cause: Some(String::from_str(error)),
            error_type: AppErrorType::DecodeError,
        }
    }

    /// A transition of which an earlier write succeeded and a later one failed; `cause` is
    /// what the failed write reported.
    pub fn partial_transition_error(cause: &str) -> (e: AppError)
        ensures
            e@ == (AppErrorView {
                message: Some(partial_transition_message()),
                cause: Some(cause@),
                error_type: AppErrorType::PartialTransition,
            }),
    {
        AppError {
            message: Some(String::from_str("The operation was only partly applied")),
            cause: Some(String::from_str(cause)),
            error_type: AppErrorType::PartialTransition,
        }
    }

    /// The status code under which this failure is reported.
    pub fn status_code(&self) -> (code: u16)
        ensures
            code == status_of(self.error_type),
    {
        match self.error_type {
            AppErrorType::DbError => 500,
            AppErrorType::NotFoundError => 404,
            AppErrorType::NotInProject => 401,
            AppErrorType::LoginError => 401,
            AppErrorType::S3Error => 500,
            AppErrorType::AvatarGenerationError => 500,
            AppErrorType::UserExistError => 401,
            AppErrorType::UnvalidFormError => 401,
            AppErrorType::AlreadyInvited => 409,
            AppErrorType::DecodeError => 400,
            AppErrorType::PartialTransition => 500,
        }
    }

    /// The body of the response that reports this failure: the shown message and nothing of
    /// the cause.
    pub fn error_response(&self) -> (body: AppErrorResponse)
        ensures
            body.error@ == self@.shown(),
    {
        AppErrorResponse { error: self.message() }
    }
}

} // verus!
