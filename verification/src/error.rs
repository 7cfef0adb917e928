//! The errors the commands report, with their codes and exit statuses.

use vstd::prelude::*;
use crate::json::{Json, JsonView};

verus! {

/// The class of a failure. Each class has its own exit status and its own
/// name in the error envelope.
#[derive(Debug, Clone, Copy, PartialEq, Eq, Structural)]
pub enum ErrorCode {
    Error,
    Network,
    AuthRequired,
    NotFound,
    RateLimited,
    InvalidInput,
    NoAccount,
}

impl ErrorCode {
    /// The process exit status of this class of failure.
    pub open spec fn status(self) -> u8 {
        match self {
            ErrorCode::Error => 1,
            ErrorCode::Network => 2,
            ErrorCode::AuthRequired => 3,
            ErrorCode::NotFound => 4,
            ErrorCode::RateLimited => 5,
            ErrorCode::InvalidInput => 6,
            ErrorCode::NoAccount => 7,
        }
    }

    /// The name of this class in the error envelope.
    pub open spec fn label(self) -> Seq<char> {
        match self {
            ErrorCode::Error => "error"@,
            ErrorCode::Network => "network"@,
            ErrorCode::AuthRequired => "auth_required"@,
            ErrorCode::NotFound => "not_found"@,
            ErrorCode::RateLimited => "rate_limited"@,
            ErrorCode::InvalidInput => "invalid_input"@,
            ErrorCode::NoAccount => "no_account"@,
        }
    }

    /// The process exit status of this class of failure.
    pub fn exit_code(&self) -> (c: u8)
        ensures
            c == self.status(),
    {
        match self {
            ErrorCode::Error => 1,
            ErrorCode::Network => 2,
            ErrorCode::AuthRequired => 3,
            ErrorCode::NotFound => 4,
            ErrorCode::RateLimited => 5,
            ErrorCode::InvalidInput => 6,
            ErrorCode::NoAccount => 7,
        }
    }

    /// The name of this class in the error envelope.
    pub fn as_str(&self) -> (s: String)
        ensures
            s@ == self.label(),
    {
        match self {
            ErrorCode::Error => "error".to_owned(),
            ErrorCode::Network => "network".to_owned(),
            ErrorCode::AuthRequired => "auth_required".to_owned(),
            ErrorCode::NotFound => "not_found".to_owned(),
            ErrorCode::RateLimited => "rate_limited".to_owned(),
            ErrorCode::InvalidInput => "invalid_input".to_owned(),
            ErrorCode::NoAccount => "no_account".to_owned(),
        }
    }
}

/// A failure's exit status tells its class: different classes never share a
/// status, and no failure exits with 0.
pub proof fn law_exit_status_names_class(a: ErrorCode, b: ErrorCode)
    ensures
        a.status() != 0,
        a.status() == b.status() ==> a == b,
        a.label() == b.label() ==> a == b,
{
    reveal_strlit("error");
    reveal_strlit("network");
    reveal_strlit("auth_required");
    reveal_strlit("not_found");
    reveal_strlit("rate_limited");
    reveal_strlit("invalid_input");
    reveal_strlit("no_account");
    if a != b {
        assert(a.label().len() != b.label().len() || a.label()[0] != b.label()[0]);
    }
}

/// A failure: its class, a message, and optionally a detail and a remediation.
#[derive(Debug, PartialEq, Eq)]
pub struct Error {
    pub code: ErrorCode,
    pub message: String,
    pub detail: Option<String>,
    pub fix: Option<String>,
}

/// The mathematical value of an [`Error`].
pub struct ErrorView {
    pub code: ErrorCode,
    pub message: Seq<char>,
    pub detail: Option<Seq<char>>,
    pub fix: Option<Seq<char>>,
}

pub open spec fn opt_view(o: Option<String>) -> Option<Seq<char>> {
    match o {
        Some(s) => Some(s@),
        None => None,
    }
}

impl View for Error {
    type V = ErrorView;

    open spec fn view(&self) -> ErrorView {
        ErrorView {
            code: self.code,
            message: self.message@,
            detail: opt_view(self.detail),
            fix: opt_view(self.fix),
        }
    }
}

/// An error with the given class and message and nothing more.
pub open spec fn plain(code: ErrorCode, message: Seq<char>) -> ErrorView {
    ErrorView { code, message, detail: None, fix: None }
}

impl ErrorView {
    pub open spec fn with_detail(self, d: Seq<char>) -> ErrorView {
        ErrorView { detail: Some(d), ..self }
    }

    pub open spec fn with_fix(self, f: Seq<char>) -> ErrorView {
        ErrorView { fix: Some(f), ..self }
    }
}

impl Error {
    /// An error with the given class and message.
    pub fn new(code: ErrorCode, message: String) -> (e: Error)
        ensures
            e@ == plain(code, message@),
    {
        Error { code, message, detail: None, fix: None }
    }

    /// An `invalid_input` error.
    pub fn invalid(message: String) -> (e: Error)
        ensures
            e@ == plain(ErrorCode::InvalidInput, message@),
    {
        Error::new(ErrorCode::InvalidInput, message)
    }

    /// An unclassified error.
    pub fn other(message: String) -> (e: Error)
        ensures
            e@ == plain(ErrorCode::Error, message@),
    {
        Error::new(ErrorCode::Error, message)
    }

    /// This error with a detail.
    pub fn detail(self, d: String) -> (e: Error)
        ensures
            e@ == self@.with_detail(d@),
    {
        Error { detail: Some(d), ..self }
    }

    /// This error with a remediation.
    pub fn fix(self, f: String) -> (e: Error)
        ensures
            e@ == self@.with_fix(f@),
    {
        Error { fix: Some(f), ..self }
    }
}

} // verus!
