//! The library's failure taxonomy. A parse failure is terminal for the
//! single entry or field it concerns; the run around it continues.

use vstd::prelude::*;

verus! {

#[derive(Clone, Copy, PartialEq, Eq, Structural, Debug)]
pub enum ParseError {
    /// The head fragment holds no structured-data script block.
    MissingScript,
    /// The structured-data block is not valid JSON.
    InvalidJson,
    /// A format name outside the fixed vocabulary.
    UnknownFormat,
    /// A status name outside the fixed vocabulary.
    UnknownStatus,
    /// A source name outside the fixed vocabulary.
    UnknownSource,
    /// A genre name outside the fixed vocabulary.
    UnknownGenre,
    /// A relation element without a numeric id segment in its reference.
    MissingRelationId,
    /// A label/value pair the body fragment does not carry.
    MissingField,
    /// A numeric value that does not fit its field.
    BadNumber,
    /// A time-required string that is not a usable duration.
    BadDuration,
    /// A date string that is not a calendar date.
    BadDate,
    /// A table line that does not fit the format's grammar.
    MalformedLine,
}

pub open spec fn error_message(e: ParseError) -> Seq<char> {
    match e {
        ParseError::MissingScript => "missing structured-data script block"@,
        ParseError::InvalidJson => "structured-data block is not valid JSON"@,
        ParseError::UnknownFormat => "unknown format"@,
        ParseError::UnknownStatus => "unknown status"@,
        ParseError::UnknownSource => "unknown source"@,
        ParseError::UnknownGenre => "unknown genre"@,
        ParseError::MissingRelationId => "relation without a numeric id"@,
        ParseError::MissingField => "field not found in body fragment"@,
        ParseError::BadNumber => "number out of range"@,
        ParseError::BadDuration => "unusable duration"@,
        ParseError::BadDate => "unusable date"@,
        ParseError::MalformedLine => "malformed table line"@,
    }
}

impl ParseError {
    /// A short description, for the unverified shell to report.
    pub fn message(&self) -> (r: &'static str)
        ensures
            r@ == error_message(*self),
    {
        match self {
            ParseError::MissingScript => "missing structured-data script block",
            ParseError::InvalidJson => "structured-data block is not valid JSON",
            ParseError::UnknownFormat => "unknown format",
            ParseError::UnknownStatus => "unknown status",
            ParseError::UnknownSource => "unknown source",
            ParseError::UnknownGenre => "unknown genre",
            ParseError::MissingRelationId => "relation without a numeric id",
            ParseError::MissingField => "field not found in body fragment",
            ParseError::BadNumber => "number out of range",
            ParseError::BadDuration => "unusable duration",
            ParseError::BadDate => "unusable date",
            ParseError::MalformedLine => "malformed table line",
        }
    }
}

} // verus!
