//! Error identifiers, status classes, user-facing messages, and the
//! password-change checks.

use zero2prod::config::Environment;
use zero2prod::errors::{
    validate_new_password, AppError, ChangePasswordError, LoginError, PublishError,
};
use zero2prod::messages::Message;

#[test]
fn error_ids_round_trip_into_messages() {
    assert_eq!(Message::from_error_id("invalid_credentials"), Some(Message::InvalidCredentials));
    assert_eq!(Message::from_error_id("invalid_data"), Some(Message::InvalidData));
    assert_eq!(
        Message::from_error_id("send_confirmation_email"),
        Some(Message::UnableToSendConfirmationEmail),
    );
    assert_eq!(Message::from_error_id("password_check_failed"), Some(Message::PasswordCheckFailed));
    assert_eq!(Message::from_error_id("new_password_too_short"), Some(Message::NewPasswordToShort));
    assert_eq!(Message::from_error_id("internal_error"), Some(Message::InternalError));
    assert_eq!(Message::from_error_id("not_a_known_id"), None);
}

#[test]
fn message_texts_are_the_published_wording() {
    assert_eq!(
        Message::PasswordChangeSucceeded.as_str(),
        "Your password has been changed.",
    );
    assert_eq!(
        Message::InternalError.as_str(),
        "An internal error occurred. Apologies for the inconvenience.",
    );
    assert_eq!(
        Message::NewPasswordToShort.as_str(),
        "The new password you have chosen is too short. Your new password must be at least 12 characters long.",
    );
}

#[test]
fn app_and_login_errors_carry_their_ids_and_statuses() {
    let app = AppError::UnexpectedError("boom".to_owned());
    assert_eq!(app.error_id(), "internal_error");
    assert_eq!(app.status_code(), 500);

    let auth = LoginError::AuthError("unknown user".to_owned());
    assert_eq!(auth.error_id(), "invalid_credentials");
    assert_eq!(auth.status_code(), 400);
    let unexpected = LoginError::UnexpectedError("boom".to_owned());
    assert_eq!(unexpected.error_id(), "internal");
    assert_eq!(unexpected.status_code(), 500);
}

#[test]
fn change_password_errors_carry_their_ids_and_statuses() {
    assert_eq!(ChangePasswordError::PasswordCheckFailed.error_id(), "password_check_failed");
    assert_eq!(ChangePasswordError::PasswordCheckFailed.status_code(), 400);
    assert_eq!(
        ChangePasswordError::CurrentPasswordIncorrect.error_id(),
        "current_password_incorrect",
    );
    assert_eq!(ChangePasswordError::CurrentPasswordIncorrect.status_code(), 400);
    assert_eq!(ChangePasswordError::NewPasswordTooShort(12).error_id(), "new_password_too_short");
    assert_eq!(ChangePasswordError::NewPasswordTooShort(12).status_code(), 400);
    assert_eq!(
        ChangePasswordError::UnexpectedError("boom".to_owned()).error_id(),
        "internal_error",
    );
    assert_eq!(ChangePasswordError::UnexpectedError("boom".to_owned()).status_code(), 500);
}

#[test]
fn new_password_fields_must_match() {
    let r = validate_new_password(
        &"one-long-password".to_owned(),
        &"another-long-password".to_owned(),
    );
    assert!(matches!(r, Err(ChangePasswordError::PasswordCheckFailed)));
}

#[test]
fn new_password_must_be_long_enough() {
    let r = validate_new_password(&"short".to_owned(), &"short".to_owned());
    assert!(matches!(r, Err(ChangePasswordError::NewPasswordTooShort(12))));
    assert!(validate_new_password(
        &"long-enough-password".to_owned(),
        &"long-enough-password".to_owned(),
    )
    .is_ok());
}

#[test]
fn publish_errors_build_their_responses() {
    let unexpected = PublishError::UnexpectedError("boom".to_owned()).error_response();
    assert_eq!(unexpected.status, 500);
    assert!(unexpected.headers.is_empty());
    assert!(unexpected.body.is_empty());

    let auth = PublishError::AuthError("bad credentials".to_owned()).error_response();
    assert_eq!(auth.status, 401);
    assert_eq!(auth.headers.len(), 1);
    assert_eq!(auth.headers[0].name, "WWW-Authenticate");
    assert_eq!(auth.headers[0].value, "Basic realm=\"publish\"");
}

#[test]
fn environments_name_themselves() {
    assert_eq!(Environment::Local.as_str(), "local");
    assert_eq!(Environment::Production.as_str(), "production");
}
