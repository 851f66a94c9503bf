//! The error taxonomy of the fetch client. Transport faults and error
//! statuses are retryable; a decode fault is permanent and carries the
//! path of the field that failed, so a schema drift stays diagnosable.

use vstd::prelude::*;
use vstd::string::*;
use crate::digits::{spec_udec, u64_to_string};

verus! {

/// What went wrong with one request.
#[derive(Debug, Clone)]
pub enum FetchErrorKind {
    /// The request itself failed: connection, timeout. Retryable.
    Transport,
    /// The server answered with an error status. Retryable, though it
    /// usually means the credentials are wrong.
    HttpStatus { code: u16 },
    /// The bytes arrived but did not decode; `path` names the field that
    /// failed. Never retried.
    Decode { path: String },
}

/// A failed fetch: the path asked for, what went wrong, and whether the
/// retry budget was spent before giving up.
#[derive(Debug, Clone)]
pub struct FetchError {
    pub url: String,
    pub kind: FetchErrorKind,
    pub retries_exhausted: bool,
}

/// Whether this kind of fault may be retried: faults of the transport and
/// of the status are, a decode fault is not.
pub open spec fn spec_is_retryable(kind: FetchErrorKind) -> bool {
    match kind {
        FetchErrorKind::Transport => true,
        FetchErrorKind::HttpStatus { .. } => true,
        FetchErrorKind::Decode { .. } => false,
    }
}

impl FetchErrorKind {
    /// Tests whether this kind of fault may be retried.
    pub fn is_retryable(&self) -> (r: bool)
        ensures
            r == spec_is_retryable(*self),
    {
        match self {
            FetchErrorKind::Transport => true,
            FetchErrorKind::HttpStatus { .. } => true,
            FetchErrorKind::Decode { .. } => false,
        }
    }
}

/// Tags a failure that spent its retry budget before giving up.
pub fn exhausted_fetch_error(url: String, kind: FetchErrorKind) -> (r: FetchError)
    ensures
        r.url == url,
        r.kind == kind,
        r.retries_exhausted,
{
    FetchError { url: url, kind: kind, retries_exhausted: true }
}

/// Tags a failure that was never retryable, or failed on its first try.
pub fn plain_fetch_error(url: String, kind: FetchErrorKind) -> (r: FetchError)
    ensures
        r.url == url,
        r.kind == kind,
        !r.retries_exhausted,
{
    FetchError { url: url, kind: kind, retries_exhausted: false }
}

/// The words a failed fetch is reported with.
pub open spec fn spec_describe_fetch_error(e: FetchError) -> Seq<char> {
    let head = match e.kind {
        FetchErrorKind::Transport => "Unable to fetch "@ + e.url@,
        FetchErrorKind::HttpStatus { code } => "Server returned error "@ + spec_udec(code as nat)
            + " fetching "@ + e.url@ + " (make sure your credentials are valid)"@,
        FetchErrorKind::Decode { path } => "Unable to parse "@ + e.url@ + " at "@ + path@,
    };
    if e.retries_exhausted {
        head + " (retries exhausted)"@
    } else {
        head
    }
}

impl FetchError {
    /// Writes the report of this failure.
    pub fn describe(&self) -> (r: String)
        ensures
            r@ == spec_describe_fetch_error(*self),
    {
        let mut s = match &self.kind {
            FetchErrorKind::Transport => {
                let mut s = String::from_str("Unable to fetch ");
                s.append(self.url.as_str());
                s
            },
            FetchErrorKind::HttpStatus { code } => {
                let mut s = String::from_str("Server returned error ");
                let code_text = u64_to_string(*code as u64);
                s.append(code_text.as_str());
                s.append(" fetching ");
                s.append(self.url.as_str());
                s.append(" (make sure your credentials are valid)");
                s
            },
            FetchErrorKind::Decode { path } => {
                let mut s = String::from_str("Unable to parse ");
                s.append(self.url.as_str());
                s.append(" at ");
                s.append(path.as_str());
                s
            },
        };
        if self.retries_exhausted {
            s.append(" (retries exhausted)");
        }
        s
    }
}

} // verus!
