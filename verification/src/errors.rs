//! The error taxonomy the service's endpoints surface, with each error's
//! machine-readable identifier and the response status class it maps to.

use vstd::prelude::*;
use crate::snapshot::{HeaderPair, ResponseSnapshot, SnapshotV};

verus! {

/// The catch-all error of endpoints with no domain-specific failure modes:
/// an opaque internal error whose detail stays in the logs.
pub enum AppError {
    UnexpectedError(String),
}

impl AppError {
    /// The machine-readable identifier callers receive.
    pub fn error_id(&self) -> (r: &'static str)
        ensures
            r@ == "internal_error"@,
    {
        match self {
            AppError::UnexpectedError(_) => "internal_error",
        }
    }

    /// The response status class this error maps to.
    pub fn status_code(&self) -> (s: u16)
        ensures
            s == 500u16,
    {
        match self {
            AppError::UnexpectedError(_) => 500,
        }
    }
}

/// Why a login attempt failed.
pub enum LoginError {
    AuthError(String),
    UnexpectedError(String),
}

impl LoginError {
    /// The machine-readable identifier callers receive.
    pub fn error_id(&self) -> (r: &'static str)
        ensures
            r@ == match self {
                LoginError::AuthError(_) => "invalid_credentials"@,
                LoginError::UnexpectedError(_) => "internal"@,
            },
    {
        match self {
            LoginError::AuthError(_) => "invalid_credentials",
            LoginError::UnexpectedError(_) => "internal",
        }
    }

    /// The response status class this error maps to.
    pub fn status_code(&self) -> (s: u16)
        ensures
            s == match self {
                LoginError::AuthError(_) => 400u16,
                LoginError::UnexpectedError(_) => 500u16,
            },
    {
        match self {
            LoginError::AuthError(_) => 400,
            LoginError::UnexpectedError(_) => 500,
        }
    }
}

/// Why a password change was refused.
pub enum ChangePasswordError {
    PasswordCheckFailed,
    CurrentPasswordIncorrect,
    NewPasswordTooShort(usize),
    UnexpectedError(String),
}

impl ChangePasswordError {
    /// The machine-readable identifier callers receive.
    pub fn error_id(&self) -> (r: &'static str)
        ensures
            r@ == match self {
                ChangePasswordError::PasswordCheckFailed => "password_check_failed"@,
                ChangePasswordError::CurrentPasswordIncorrect => "current_password_incorrect"@,
                ChangePasswordError::NewPasswordTooShort(_) => "new_password_too_short"@,
                ChangePasswordError::UnexpectedError(_) => "internal_error"@,
            },
    {
        match self {
            ChangePasswordError::PasswordCheckFailed => "password_check_failed",
            ChangePasswordError::CurrentPasswordIncorrect => "current_password_incorrect",
            ChangePasswordError::NewPasswordTooShort(_) => "new_password_too_short",
            ChangePasswordError::UnexpectedError(_) => "internal_error",
        }
    }

    /// The response status class this error maps to.
    pub fn status_code(&self) -> (s: u16)
        ensures
            s == match self {
                ChangePasswordError::UnexpectedError(_) => 500u16,
                _ => 400u16,
            },
    {
        match self {
            ChangePasswordError::PasswordCheckFailed => 400,
            ChangePasswordError::CurrentPasswordIncorrect => 400,
            ChangePasswordError::NewPasswordTooShort(_) => 400,
            ChangePasswordError::UnexpectedError(_) => 500,
        }
    }
}

/// Shortest password the service accepts, in characters.
pub const PASSWORD_MIN_LENGTH: usize = 12;

/// The password-change checks that need no stored state: the two new
/// passwords must match, and the new password must be long enough.
pub fn validate_new_password(new_password: &String, new_password_check: &String) -> (r: Result<
    (),
    ChangePasswordError,
>)
    ensures
        match r {
            Ok(_) => new_password@ == new_password_check@ && new_password@.len()
                >= PASSWORD_MIN_LENGTH,
            Err(ChangePasswordError::PasswordCheckFailed) => new_password@ != new_password_check@,
            Err(ChangePasswordError::NewPasswordTooShort(n)) => new_password@
                == new_password_check@ && new_password@.len() < PASSWORD_MIN_LENGTH && n
                == PASSWORD_MIN_LENGTH,
            Err(_) => false,
        },
{
    if !new_password.eq(new_password_check) {
        return Err(ChangePasswordError::PasswordCheckFailed);
    }
    if new_password.as_str().unicode_len() < PASSWORD_MIN_LENGTH {
        return Err(ChangePasswordError::NewPasswordTooShort(PASSWORD_MIN_LENGTH));
    }
    Ok(())
}

/// Why publishing was refused to the caller.
pub enum PublishError {
    AuthError(String),
    UnexpectedError(String),
}

impl PublishError {
    /// The response returned to the caller: a bare 500 for an unexpected
    /// error, a 401 challenging for basic authentication otherwise.
    pub fn error_response(&self) -> (r: ResponseSnapshot)
        ensures
            r@ == match self {
                PublishError::UnexpectedError(_) => SnapshotV {
                    status: 500,
                    headers: Seq::empty(),
                    body: Seq::empty(),
                },
                PublishError::AuthError(_) => SnapshotV {
                    status: 401,
                    headers: seq![("WWW-Authenticate"@, "Basic realm=\"publish\""@)],
                    body: Seq::empty(),
                },
            },
            r@.wf(),
    {
        match self {
            PublishError::UnexpectedError(_) => {
                let r = ResponseSnapshot { status: 500, headers: Vec::new(), body: Vec::new() };
                proof {
                    assert(r@.headers =~= Seq::<(Seq<char>, Seq<char>)>::empty());
                    assert(r@ =~= (SnapshotV {
                        status: 500,
                        headers: Seq::empty(),
                        body: Seq::empty(),
                    }));
                }
                r
            },
            PublishError::AuthError(_) => {
                let mut headers: Vec<HeaderPair> = Vec::new();
                headers.push(HeaderPair {
                    name: "WWW-Authenticate".to_owned(),
                    value: "Basic realm=\"publish\"".to_owned(),
                });
                let r = ResponseSnapshot { status: 401, headers, body: Vec::new() };
                proof {
                    assert(r@.headers =~= seq![("WWW-Authenticate"@, "Basic realm=\"publish\""@)]);
                    assert(r@ =~= (SnapshotV {
                        status: 401,
                        headers: seq![("WWW-Authenticate"@, "Basic realm=\"publish\""@)],
                        body: Seq::empty(),
                    }));
                }
                r
            },
        }
    }
}

} // verus!
