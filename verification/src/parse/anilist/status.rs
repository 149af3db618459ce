//! The fixed vocabulary of airing statuses.

use crate::errors::ParseError;
use crate::text::str_eq;
use vstd::prelude::*;

verus! {

#[derive(Clone, Copy, PartialEq, Eq, Structural, Debug)]
pub enum Status {
    Releasing,
    Finished,
    NotYetReleased,
    Cancelled,
}

/// The status a textual value names, if any.
pub open spec fn status_of(s: Seq<char>) -> Option<Status> {
    if s == "Releasing"@ {
        Some(Status::Releasing)
    } else if s == "Finished"@ {
        Some(Status::Finished)
    } else if s == "Not Yet Released"@ {
        Some(Status::NotYetReleased)
    } else if s == "Cancelled"@ {
        Some(Status::Cancelled)
    } else {
        None
    }
}

/// The textual name of a status.
pub open spec fn status_name(s: Status) -> Seq<char> {
    match s {
        Status::Releasing => "Releasing"@,
        Status::Finished => "Finished"@,
        Status::NotYetReleased => "Not Yet Released"@,
        Status::Cancelled => "Cancelled"@,
    }
}

/// Validates a textual status against the fixed vocabulary; an
/// unrecognized value is a parse failure, never coerced.
pub fn to_status(status: &str) -> (r: Result<Status, ParseError>)
    ensures
        match r {
            Ok(s) => status_of(status@) == Some(s),
            Err(e) => status_of(status@) is None && e == ParseError::UnknownStatus,
        },
{
    if str_eq(status, "Releasing") {
        Ok(Status::Releasing)
    } else if str_eq(status, "Finished") {
        Ok(Status::Finished)
    } else if str_eq(status, "Not Yet Released") {
        Ok(Status::NotYetReleased)
    } else if str_eq(status, "Cancelled") {
        Ok(Status::Cancelled)
    } else {
        Err(ParseError::UnknownStatus)
    }
}

impl Status {
    /// The textual name of this status.
    pub fn as_str(&self) -> (r: &'static str)
        ensures
            r@ == status_name(*self),
    {
        match self {
            Status::Releasing => "Releasing",
            Status::Finished => "Finished",
            Status::NotYetReleased => "Not Yet Released",
            Status::Cancelled => "Cancelled",
        }
    }
}

} // verus!
