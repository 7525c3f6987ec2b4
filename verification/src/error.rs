//! A stable code for each kind of failure the client reports.
//!
//! Errors travel through the client as messages written for a log, so a front
//! end that wants to say something in the user's language has nothing to key
//! on. This reads the message back into one of a few kinds every front end can
//! name in its own words, leaving the message itself for the log and for the
//! rare failure that has no kind.

use vstd::prelude::*;
use crate::text::{ascii_lower_seq, chars_of, contains_seq, contains_str, to_ascii_lowercase};

verus! {

/// The kind of a failure, as a front end would explain it.
#[derive(Debug, Clone, Copy, PartialEq, Eq, Structural)]
pub enum ErrorKind {
    /// The provider did not answer in time.
    Timeout,
    /// The request never reached the provider, or its reply never arrived.
    Network,
    /// The provider answered with a failure status or a challenge it would not clear.
    Provider,
    /// The stored session is no longer accepted.
    Session,
    /// The provider's reply could not be read.
    Malformed,
    /// Anything else; the message is all there is.
    Other,
}

/// The code a front end matches on, for each kind.
pub open spec fn kind_code(kind: ErrorKind) -> Seq<char> {
    match kind {
        ErrorKind::Timeout => "timeout"@,
        ErrorKind::Network => "network"@,
        ErrorKind::Provider => "provider"@,
        ErrorKind::Session => "session"@,
        ErrorKind::Malformed => "malformed"@,
        ErrorKind::Other => "other"@,
    }
}

impl ErrorKind {
    /// The code a front end matches on.
    pub fn code(self) -> (code: &'static str)
        ensures
            code@ == kind_code(self),
    {
        match self {
            ErrorKind::Timeout => "timeout",
            ErrorKind::Network => "network",
            ErrorKind::Provider => "provider",
            ErrorKind::Session => "session",
            ErrorKind::Malformed => "malformed",
            ErrorKind::Other => "other",
        }
    }
}

/// The kind a message names, read from its ASCII-lower-cased text; the first
/// rule that matches wins.
pub open spec fn classified(message: Seq<char>) -> ErrorKind {
    let lower = ascii_lower_seq(message);
    if contains_seq(lower, "timed out"@) || contains_seq(lower, "timeout"@) {
        ErrorKind::Timeout
    } else if contains_seq(lower, "request failed: http "@) || contains_seq(lower, "anubis"@) {
        ErrorKind::Provider
    } else if contains_seq(lower, "request failed"@) || contains_seq(lower, "failed to send"@)
        || contains_seq(lower, "failed to read http response"@) || contains_seq(
        lower,
        "http response exceeded"@,
    ) {
        ErrorKind::Network
    } else if contains_seq(lower, "session"@) && (contains_seq(lower, "rejected"@)
        || contains_seq(lower, "expired"@) || contains_seq(lower, "no longer valid"@)
        || contains_seq(lower, "invalid"@)) {
        ErrorKind::Session
    } else if contains_seq(lower, "malformed"@) || contains_seq(lower, "failed to parse"@)
        || contains_seq(lower, "invalid history page"@) {
        ErrorKind::Malformed
    } else {
        ErrorKind::Other
    }
}

/// Reads the kind of failure out of one of the client's error messages.
pub fn classify(message: &str) -> (kind: ErrorKind)
    ensures
        kind == classified(message@),
{
    let chars = chars_of(message);
    let lower = to_ascii_lowercase(&chars);
    if contains_str(&lower, "timed out") || contains_str(&lower, "timeout") {
        ErrorKind::Timeout
    } else if contains_str(&lower, "request failed: http ") || contains_str(&lower, "anubis") {
        ErrorKind::Provider
    } else if contains_str(&lower, "request failed") || contains_str(&lower, "failed to send")
        || contains_str(&lower, "failed to read http response") || contains_str(
        &lower,
        "http response exceeded",
    ) {
        ErrorKind::Network
    } else if contains_str(&lower, "session") && (contains_str(&lower, "rejected")
        || contains_str(&lower, "expired") || contains_str(&lower, "no longer valid")
        || contains_str(&lower, "invalid")) {
        ErrorKind::Session
    } else if contains_str(&lower, "malformed") || contains_str(&lower, "failed to parse")
        || contains_str(&lower, "invalid history page") {
        ErrorKind::Malformed
    } else {
        ErrorKind::Other
    }
}

/// A failure the client reports: its kind, and the message written for a
/// log.
#[derive(Debug)]
pub struct ClientError {
    pub kind: ErrorKind,
    pub message: String,
}

impl ClientError {
    pub fn new(kind: ErrorKind, message: String) -> (r: ClientError)
        ensures
            r.kind == kind,
            r.message == message,
    {
        ClientError { kind, message }
    }

    /// A failure known only by its message; its kind is read from the text
    /// as [`classify`] reads it.
    pub fn from_message(message: String) -> (r: ClientError)
        ensures
            r.kind == classified(message@),
            r.message == message,
    {
        let kind = classify(message.as_str());
        ClientError { kind, message }
    }
}

} // verus!
