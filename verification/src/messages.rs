//! User-facing messages, keyed by the machine-readable error identifiers the
//! service returns.

use vstd::prelude::*;
use crate::text::str_eq;

verus! {

/// Everything the user interface may need to tell the user.
#[derive(Clone, Copy, Debug, PartialEq, Eq, Structural)]
pub enum Message {
    InternalError,
    InvalidCredentials,
    InvalidData,
    UnableToSendConfirmationEmail,
    PasswordCheckFailed,
    NewPasswordToShort,
    PasswordChangeSucceeded,
    AddSubscriberSucceeded,
    PublishNewsletterSucceeded,
}

/// The message an error identifier maps to, if it names one.
pub open spec fn spec_from_error_id(error_id: Seq<char>) -> Option<Message> {
    if error_id == "invalid_credentials"@ {
        Some(Message::InvalidCredentials)
    } else if error_id == "invalid_data"@ {
        Some(Message::InvalidData)
    } else if error_id == "send_confirmation_email"@ {
        Some(Message::UnableToSendConfirmationEmail)
    } else if error_id == "password_check_failed"@ {
        Some(Message::PasswordCheckFailed)
    } else if error_id == "new_password_too_short"@ {
        Some(Message::NewPasswordToShort)
    } else if error_id == "internal_error"@ {
        Some(Message::InternalError)
    } else {
        None
    }
}

/// The text shown to the user for each message.
pub open spec fn spec_message_text(m: Message) -> Seq<char> {
    match m {
        Message::InternalError => "An internal error occurred. Apologies for the inconvenience."@,
        Message::InvalidCredentials => "The username and password that you entered did not work. Try again with different credentials."@,
        Message::InvalidData => "There was a problem with the form data you entered. Please try again."@,
        Message::UnableToSendConfirmationEmail => "We were unable to send a confirmation email to that email address."@,
        Message::PasswordCheckFailed => "The new passwords you entered do not match each other."@,
        Message::NewPasswordToShort => "The new password you have chosen is too short. Your new password must be at least 12 characters long."@,
        Message::PasswordChangeSucceeded => "Your password has been changed."@,
        Message::AddSubscriberSucceeded => "You have subscribed to our newsletter. Stay tuned, you're going to love it!"@,
        Message::PublishNewsletterSucceeded => "Your newsletter publish request has been accepted, and emails will go out shortly."@,
    }
}

impl Message {
    /// The message behind an error identifier the server sent, if recognised.
    pub fn from_error_id(error_id: &str) -> (r: Option<Message>)
        ensures
            r == spec_from_error_id(error_id@),
    {
        if str_eq(error_id, "invalid_credentials") {
            Some(Message::InvalidCredentials)
        } else if str_eq(error_id, "invalid_data") {
            Some(Message::InvalidData)
        } else if str_eq(error_id, "send_confirmation_email") {
            Some(Message::UnableToSendConfirmationEmail)
        } else if str_eq(error_id, "password_check_failed") {
            Some(Message::PasswordCheckFailed)
        } else if str_eq(error_id, "new_password_too_short") {
            Some(Message::NewPasswordToShort)
        } else if str_eq(error_id, "internal_error") {
            Some(Message::InternalError)
        } else {
            None
        }
    }

    /// The text shown to the user.
    pub fn as_str(&self) -> (r: &'static str)
        ensures
            r@ == spec_message_text(*self),
    {
        match self {
            Message::InternalError => "An internal error occurred. Apologies for the inconvenience.",
            Message::InvalidCredentials => "The username and password that you entered did not work. Try again with different credentials.",
            Message::InvalidData => "There was a problem with the form data you entered. Please try again.",
            Message::UnableToSendConfirmationEmail => "We were unable to send a confirmation email to that email address.",
            Message::PasswordCheckFailed => "The new passwords you entered do not match each other.",
            Message::NewPasswordToShort => "The new password you have chosen is too short. Your new password must be at least 12 characters long.",
            Message::PasswordChangeSucceeded => "Your password has been changed.",
            Message::AddSubscriberSucceeded => "You have subscribed to our newsletter. Stay tuned, you're going to love it!",
            Message::PublishNewsletterSucceeded => "Your newsletter publish request has been accepted, and emails will go out shortly.",
        }
    }
}

} // verus!
