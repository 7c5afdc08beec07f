//! Parsing and validation of security.txt documents as described by RFC 9116.
//!
//! The crate accepts either a plain document or an OpenPGP cleartext-signed
//! envelope wrapping one, recovers the payload, types the fields, and enforces
//! the cardinality, freshness and scheme-security rules of the RFC.
#![verifier::loop_isolation(false)]

pub mod chars;
pub mod fields;
pub mod laws;
pub mod outside;
pub mod parse_error;
pub mod parsers;
pub mod pgpcleartextmessage;
pub mod raw_field;
pub mod scan;
pub mod securitytxt;
pub mod securitytxt_options;
pub mod website;

pub use fields::{
    AcknowledgmentsField, CanonicalField, ContactField, CsafField, EncryptionField, ExpiresField,
    ExtensionField, HiringField, PolicyField, PreferredLanguagesField,
};
pub use parse_error::ParseError;
pub use raw_field::RawField;
pub use securitytxt::SecurityTxt;
pub use securitytxt_options::SecurityTxtOptions;
