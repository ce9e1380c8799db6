//! Error taxonomy shared by every component.

use vstd::prelude::*;

verus! {

/// Kinds of failure the backend can surface.
#[derive(Clone, Copy, Debug, PartialEq, Eq, Structural)]
pub enum ErrorKind {
    Cancelled,
    RetryableNet,
    RetryableAuth,
    NotRetriable,
    SourceChanged,
    DiskFull,
    NotImplemented,
}

/// An error value: a kind, a human message, an optional retry hint in
/// milliseconds, optional structured context, and an origin timestamp in
/// epoch milliseconds.
#[derive(Clone, Debug)]
pub struct SpError {
    pub kind: ErrorKind,
    pub message: String,
    pub retry_after_ms: Option<u64>,
    pub context: Option<String>,
    pub at: i64,
}

pub type SpResult<T> = Result<T, SpError>;

impl SpError {
    /// Build an error of the given kind with no retry hint.
    pub fn new(kind: ErrorKind, message: String, at: i64) -> (r: SpError)
        ensures
            r.kind == kind,
            r.message == message,
            r.retry_after_ms is None,
            r.context is None,
            r.at == at,
    {
        SpError { kind, message, retry_after_ms: None, context: None, at }
    }

    /// Build an error of the given kind carrying a retry hint.
    pub fn with_retry(kind: ErrorKind, message: String, retry_after_ms: u64, at: i64) -> (r:
        SpError)
        ensures
            r.kind == kind,
            r.message == message,
            r.retry_after_ms == Some(retry_after_ms),
            r.context is None,
            r.at == at,
    {
        SpError { kind, message, retry_after_ms: Some(retry_after_ms), context: None, at }
    }

    /// A field-wise copy.
    pub fn duplicate(&self) -> (r: SpError)
        ensures
            r == *self,
    {
        SpError {
            kind: self.kind,
            message: self.message.clone(),
            retry_after_ms: self.retry_after_ms,
            context: match &self.context {
                Some(c) => Some(c.clone()),
                None => None,
            },
            at: self.at,
        }
    }
}

/// The standard error for a feature stub.
pub fn err_not_implemented(msg: &str, at: i64) -> (r: SpError)
    ensures
        r.kind == ErrorKind::NotImplemented,
        r.message@ == msg@,
        r.at == at,
{
    SpError::new(ErrorKind::NotImplemented, msg.to_owned(), at)
}

/// Milliseconds since the Unix epoch, for error timestamps.
///
/// Relies on chrono's `Utc::now` and `DateTime::timestamp_millis`; the result
/// depends on the clock, so nothing is promised of it.
#[verifier::external_body]
pub fn now_ms() -> i64 {
    chrono::Utc::now().timestamp_millis()
}

} // verus!
