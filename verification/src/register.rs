//! The registration page: its link, and the check of the form.

use vstd::prelude::*;
use vstd::string::StringExecFns;

verus! {

/// A request for the registration page.
pub struct RegisterRequest {
    /// What to do once the user is registered, as a query string, already
    /// URL-encoded.
    pub post_auth_action: Option<String>,
}

impl RegisterRequest {
    /// The link to the registration page, as a sequence of characters:
    /// `/register`, followed by `?` and the query string of the action if
    /// there is one.
    pub open spec fn link(self) -> Seq<char> {
        match self.post_auth_action {
            Some(query) => "/register?"@ + query@,
            None => "/register"@,
        }
    }

    /// The link to the registration page that carries this request.
    pub fn as_link(&self) -> (link: String)
        ensures
            link@ == self.link(),
    {
        match &self.post_auth_action {
            Some(query) => "/register?".to_owned().concat(query.as_str()),
            None => "/register".to_owned(),
        }
    }
}

/// Why a registration form is refused.
#[derive(Clone, Copy, Debug, PartialEq, Eq, Structural)]
pub enum RegisterError {
    /// The password and its confirmation differ.
    PasswordMismatch,
}

impl RegisterError {
    /// What the error says.
    pub fn message(&self) -> (s: &'static str)
        ensures
            s@ == "password mismatch"@,
    {
        "password mismatch"
    }
}

/// The registration form as the user filled it in.
pub struct RegisterForm {
    pub username: String,
    pub password: String,
    pub password_confirm: String,
}

impl RegisterForm {
    /// Accepts the form if the password was typed the same twice.
    pub fn check(&self) -> (r: Result<(), RegisterError>)
        ensures
            r is Ok <==> self.password@ == self.password_confirm@,
            r is Err ==> r->Err_0 == RegisterError::PasswordMismatch,
    {
        if self.password == self.password_confirm {
            Ok(())
        } else {
            Err(RegisterError::PasswordMismatch)
        }
    }
}

} // verus!
