//! The decoder's error taxonomy. Every failure aborts the whole parse; the
//! variants that carry a `String` hold the offending raw text.

use vstd::prelude::*;

verus! {

/// The mathematical form of an error, over character sequences.
pub enum ErrorV {
    UnsupportedFileVersion(Seq<char>),
    InvalidFile,
    MissingLicSettings,
    InvalidLicSettings(Seq<char>),
    InvalidDuration(Seq<char>),
    InvalidDate(Seq<char>),
    InvalidTime(Seq<char>),
}

/// Why a document failed to decode.
#[derive(Debug, Clone)]
pub enum Error {
    /// The version line is not the literal `4`; carries the raw version line.
    UnsupportedFileVersion(String),
    /// A required structural delimiter is missing, a row's field count does
    /// not match its header, or a required scalar never appears in a row.
    InvalidFile,
    /// The license-settings header line is absent or lacks its marker.
    MissingLicSettings,
    /// The start-count field of a license-settings line is missing or
    /// unparsable; carries the raw line.
    InvalidLicSettings(String),
    /// A malformed duration; carries the raw field.
    InvalidDuration(String),
    /// A malformed date; carries the raw field.
    InvalidDate(String),
    /// A malformed time of day; carries the raw field.
    InvalidTime(String),
}

impl View for Error {
    type V = ErrorV;

    open spec fn view(&self) -> ErrorV {
        match self {
            Error::UnsupportedFileVersion(s) => ErrorV::UnsupportedFileVersion(s@),
            Error::InvalidFile => ErrorV::InvalidFile,
            Error::MissingLicSettings => ErrorV::MissingLicSettings,
            Error::InvalidLicSettings(s) => ErrorV::InvalidLicSettings(s@),
            Error::InvalidDuration(s) => ErrorV::InvalidDuration(s@),
            Error::InvalidDate(s) => ErrorV::InvalidDate(s@),
            Error::InvalidTime(s) => ErrorV::InvalidTime(s@),
        }
    }
}

} // verus!
