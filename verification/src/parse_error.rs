//! The closed taxonomy of reasons a security.txt input is rejected.
use vstd::prelude::*;

verus! {

/// Why an input was rejected.  Every failure of the grammar, of the PGP
/// frame, of an IRI, date-time or language-tag payload, or of the document
/// rules maps to exactly one of these kinds.
#[derive(Debug, PartialEq, Eq, Structural, Clone, Copy)]
pub enum ParseError {
    /// A grammar failure, or an IRI, date-time or language-tag that does not
    /// parse.
    Malformed,
    /// Reserved for date-time failures reported apart; this crate folds them
    /// into `Malformed`.
    InvalidDatetime,
    /// A field that is present but semantically empty.
    IllegalField,
    /// No "Contact" field.
    ContactFieldMissing,
    /// No "Expires" field.
    ExpiresFieldMissing,
    /// An "Expires" instant strictly before `now`.
    ExpiresFieldExpired,
    /// More than one "Expires" field.
    ExpiresFieldMultiple,
    /// More than one "Preferred-Languages" field.
    PreferredLanguagesFieldMultiple,
    /// An IRI-valued field whose scheme is "http".
    InsecureHTTP,
}

/// The diagnostic text of each kind.
pub open spec fn spec_message(e: ParseError) -> Seq<char> {
    match e {
        ParseError::Malformed => "invalid syntax"@,
        ParseError::InvalidDatetime => "invalid date format"@,
        ParseError::IllegalField => "field specified in an illegal way"@,
        ParseError::ContactFieldMissing => "contact field must be specified"@,
        ParseError::ExpiresFieldMissing => "expires field must be specified"@,
        ParseError::ExpiresFieldExpired => "expires field specifies time in the past"@,
        ParseError::ExpiresFieldMultiple => "expires field may only be specified once"@,
        ParseError::PreferredLanguagesFieldMultiple => "preferred languages field may only be specified once"@,
        ParseError::InsecureHTTP => "links must use HTTPS"@,
    }
}

impl ParseError {
    /// A stable, human-readable message for this kind.
    pub fn message(&self) -> (r: &'static str)
        ensures
            r@ == spec_message(*self),
    {
        match self {
            ParseError::Malformed => "invalid syntax",
            ParseError::InvalidDatetime => "invalid date format",
            ParseError::IllegalField => "field specified in an illegal way",
            ParseError::ContactFieldMissing => "contact field must be specified",
            ParseError::ExpiresFieldMissing => "expires field must be specified",
            ParseError::ExpiresFieldExpired => "expires field specifies time in the past",
            ParseError::ExpiresFieldMultiple => "expires field may only be specified once",
            ParseError::PreferredLanguagesFieldMultiple => "preferred languages field may only be specified once",
            ParseError::InsecureHTTP => "links must use HTTPS",
        }
    }
}

} // verus!
