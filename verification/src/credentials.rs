//! The credentials that requests are sent with.

use vstd::prelude::*;

use crate::error::ClientError;
use crate::json::view_of;

verus! {

/// An access token, the base URL that it is meant for, and the account that it belongs
/// to.
#[derive(Debug, Clone)]
pub struct CodexCredentials {
    pub access_token: String,
    pub base_url: String,
    /// A routing hint: it is read from the token without verification.
    pub account_id: Option<String>,
}

/// The mathematical view of [`CodexCredentials`].
pub struct CredentialsView {
    pub access_token: Seq<char>,
    pub base_url: Seq<char>,
    pub account_id: Option<Seq<char>>,
}

impl View for CodexCredentials {
    type V = CredentialsView;

    open spec fn view(&self) -> CredentialsView {
        CredentialsView {
            access_token: self.access_token@,
            base_url: self.base_url@,
            account_id: view_of(self.account_id),
        }
    }
}

/// Credentials whose base URL may see their token. There is no other way to get them than
/// [`CodexCredentials::checked`].
#[derive(Debug, Clone)]
pub struct CheckedCredentials {
    creds: CodexCredentials,
}

impl View for CheckedCredentials {
    type V = CredentialsView;

    closed spec fn view(&self) -> CredentialsView {
        self.creds@
    }
}

impl CodexCredentials {
    /// These credentials, where `check` is the outcome of the check that their base URL may
    /// see their token. Where it has failed, its error.
    pub fn checked(self, check: Result<(), ClientError>) -> (r: Result<
        CheckedCredentials,
        ClientError,
    >)
        ensures
            match r {
                Ok(creds) => check is Ok && creds@ == self@,
                Err(e) => check is Err && e@ == check->Err_0@,
            },
    {
        match check {
            Ok(()) => Ok(CheckedCredentials { creds: self }),
            Err(e) => Err(e),
        }
    }
}

impl CheckedCredentials {
    /// The credentials.
    pub fn credentials(&self) -> (r: &CodexCredentials)
        ensures
            r@ == self@,
    {
        &self.creds
    }
}

} // verus!
