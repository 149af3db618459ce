//! The fixed vocabulary of release formats.

use crate::errors::ParseError;
use crate::text::str_eq;
use vstd::prelude::*;

verus! {

#[derive(Clone, Copy, PartialEq, Eq, Structural, Debug)]
pub enum Format {
    TvShow,
    Movie,
    TvShort,
    Special,
    Ova,
    Ona,
    Music,
}

/// The format a textual value names, if any.
pub open spec fn format_of(s: Seq<char>) -> Option<Format> {
    if s == "TV"@ {
        Some(Format::TvShow)
    } else if s == "Movie"@ {
        Some(Format::Movie)
    } else if s == "TV Short"@ {
        Some(Format::TvShort)
    } else if s == "Special"@ {
        Some(Format::Special)
    } else if s == "OVA"@ {
        Some(Format::Ova)
    } else if s == "ONA"@ {
        Some(Format::Ona)
    } else if s == "Music"@ {
        Some(Format::Music)
    } else {
        None
    }
}

/// The textual name of a format.
pub open spec fn format_name(f: Format) -> Seq<char> {
    match f {
        Format::TvShow => "TV"@,
        Format::Movie => "Movie"@,
        Format::TvShort => "TV Short"@,
        Format::Special => "Special"@,
        Format::Ova => "OVA"@,
        Format::Ona => "ONA"@,
        Format::Music => "Music"@,
    }
}

/// Validates a textual format against the fixed vocabulary; an
/// unrecognized value is a parse failure, never coerced.
pub fn to_format(format: &str) -> (r: Result<Format, ParseError>)
    ensures
        match r {
            Ok(f) => format_of(format@) == Some(f),
            Err(e) => format_of(format@) is None && e == ParseError::UnknownFormat,
        },
{
    if str_eq(format, "TV") {
        Ok(Format::TvShow)
    } else if str_eq(format, "Movie") {
        Ok(Format::Movie)
    } else if str_eq(format, "TV Short") {
        Ok(Format::TvShort)
    } else if str_eq(format, "Special") {
        Ok(Format::Special)
    } else if str_eq(format, "OVA") {
        Ok(Format::Ova)
    } else if str_eq(format, "ONA") {
        Ok(Format::Ona)
    } else if str_eq(format, "Music") {
        Ok(Format::Music)
    } else {
        Err(ParseError::UnknownFormat)
    }
}

impl Format {
    /// The textual name of this format.
    pub fn as_str(&self) -> (r: &'static str)
        ensures
            r@ == format_name(*self),
    {
        match self {
            Format::TvShow => "TV",
            Format::Movie => "Movie",
            Format::TvShort => "TV Short",
            Format::Special => "Special",
            Format::Ova => "OVA",
            Format::Ona => "ONA",
            Format::Music => "Music",
        }
    }
}

} // verus!
