use stampa::errors::{AppError, AppErrorType};

#[test]
fn a_failure_of_the_store_shows_no_detail() {
    let e = AppError::db_error("connection reset");
    assert_eq!(e.message, None);
    assert_eq!(e.cause.as_deref(), Some("connection reset"));
    assert_eq!(e.error_type, AppErrorType::DbError);
    assert_eq!(e.message(), "An internal error occured");
    assert_eq!(e.status_code(), 500);
    assert_eq!(e.error_response().error, "An internal error occured");
}

#[test]
fn a_failure_to_draw_is_a_failure_of_the_store() {
    let e = AppError::avatat_generation_error("no surface");
    assert_eq!(e.message, None);
    assert_eq!(e.cause.as_deref(), Some("no surface"));
    assert_eq!(e.error_type, AppErrorType::DbError);
    assert_eq!(e.status_code(), 500);
}

#[test]
fn what_is_not_found_is_named() {
    let e = AppError::not_found_error("5f1d7f3e2c1b4a0012345678");
    assert_eq!(e.message.as_deref(), Some("The ressource 5f1d7f3e2c1b4a0012345678 was not found"));
    assert_eq!(e.cause.as_deref(), Some("5f1d7f3e2c1b4a0012345678"));
    assert_eq!(e.error_type, AppErrorType::NotFoundError);
    assert_eq!(e.status_code(), 404);
    assert_eq!(e.error_response().error, "The ressource 5f1d7f3e2c1b4a0012345678 was not found");
    assert_eq!(AppError::not_found_error("").message(), "The ressource  was not found");
}

#[test]
fn a_stranger_to_the_project_is_named() {
    let e = AppError::not_in_project_error("abc");
    assert_eq!(e.message.as_deref(), Some("The user abc is not in the project"));
    assert_eq!(e.cause.as_deref(), Some("abc"));
    assert_eq!(e.error_type, AppErrorType::NotInProject);
    assert_eq!(e.status_code(), 401);
}

#[test]
fn failures_of_the_object_store_and_of_the_scratch_space_look_alike() {
    let e = AppError::s3_error("Can not get object.");
    assert_eq!(e.message.as_deref(), Some("Internal error"));
    assert_eq!(e.cause.as_deref(), Some("Can not get object."));
    assert_eq!(e.error_type, AppErrorType::S3Error);
    assert_eq!(e.status_code(), 500);
    let e = AppError::fs_error("Can not delete temporary avatar.");
    assert_eq!(e.message.as_deref(), Some("Internal error"));
    assert_eq!(e.cause.as_deref(), Some("Can not delete temporary avatar."));
    assert_eq!(e.error_type, AppErrorType::S3Error);
    assert_eq!(e.status_code(), 500);
}

#[test]
fn a_failed_login_names_the_user() {
    let e = AppError::login_error("alice1");
    assert_eq!(e.message.as_deref(), Some("Can not login user alice1."));
    assert_eq!(e.cause.as_deref(), Some("Can not login user alice1."));
    assert_eq!(e.error_type, AppErrorType::LoginError);
    assert_eq!(e.status_code(), 401);
}

#[test]
fn a_taken_name_is_named() {
    let e = AppError::user_exist_error("alice1");
    assert_eq!(e.message.as_deref(), Some("User alice1 already exist."));
    assert_eq!(e.cause.as_deref(), Some("User alice1 already exist"));
    assert_eq!(e.error_type, AppErrorType::UserExistError);
    assert_eq!(e.status_code(), 401);
}

#[test]
fn a_bad_form_shows_why() {
    let e = AppError::unvalid_form_error("too short");
    assert_eq!(e.message.as_deref(), Some("too short"));
    assert_eq!(e.cause.as_deref(), Some("too short"));
    assert_eq!(e.error_type, AppErrorType::UnvalidFormError);
    assert_eq!(e.status_code(), 401);
}

#[test]
fn the_failures_of_invitations_and_of_images() {
    let e = AppError::already_invited_error("bob");
    assert_eq!(e.message.as_deref(), Some("The user bob is already invited or a member"));
    assert_eq!(e.cause.as_deref(), Some("bob"));
    assert_eq!(e.error_type, AppErrorType::AlreadyInvited);
    assert_eq!(e.status_code(), 409);
    let e = AppError::decode_error("not an image");
    assert_eq!(e.message.as_deref(), Some("not an image"));
    assert_eq!(e.cause.as_deref(), Some("not an image"));
    assert_eq!(e.error_type, AppErrorType::DecodeError);
    assert_eq!(e.status_code(), 400);
    let e = AppError::partial_transition_error("disk full");
    assert_eq!(e.message.as_deref(), Some("The operation was only partly applied"));
    assert_eq!(e.cause.as_deref(), Some("disk full"));
    assert_eq!(e.error_type, AppErrorType::PartialTransition);
    assert_eq!(e.status_code(), 500);
}

#[test]
fn the_response_never_shows_the_cause() {
    let e = AppError::s3_error("secret detail");
    assert_eq!(e.error_response().error, "Internal error");
    let e = AppError { message: None, cause: Some("secret detail".to_string()), error_type: AppErrorType::LoginError };
    assert_eq!(e.error_response().error, "An internal error occured");
    assert_eq!(e.status_code(), 401);
    let e = AppError { message: None, cause: None, error_type: AppErrorType::AvatarGenerationError };
    assert_eq!(e.status_code(), 500);
}
