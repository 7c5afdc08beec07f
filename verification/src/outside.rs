//! The few places where the library leans on outside crates: IRI validation,
//! RFC 3339 date-time parsing, language-tag normalization, the wall clock, and
//! building a `String` from characters.  Each item here is believed, not
//! proved; everything around them is verified against these contracts.
use vstd::prelude::*;

verus! {

/// The scheme of `s` when `s` is an IRI acceptable to `iri_string`, and
/// `None` when it is not.  The result depends on the characters alone.
pub uninterp spec fn iri_scheme_of(s: Seq<char>) -> Option<Seq<char>>;

/// The UTC instant, as whole seconds since the epoch paired with the
/// nanoseconds into the second, that `chrono` reads out of an RFC 3339
/// date-time, and `None` when the text does not parse.  The result depends on
/// the characters alone.
pub uninterp spec fn rfc3339_utc_of(s: Seq<char>) -> Option<(int, int)>;

/// The normalized form of an RFC 5646 language tag, and `None` when the text
/// is not a well-formed tag.  The result depends on the characters alone.
pub uninterp spec fn langtag_normal_of(s: Seq<char>) -> Option<Seq<char>>;

/// Relies on `iri_string::types::IriString`'s `FromStr` to decide whether `s`
/// is a valid IRI, and on `IriString::scheme_str` to read its scheme; the
/// string is validated, not rewritten, and the scheme is the part before the
/// first ":".
#[verifier::external_body]
pub(crate) fn parse_iri_scheme(s: &str) -> (r: Option<String>)
    ensures
        match r {
            Some(sch) => iri_scheme_of(s@) == Some(sch@),
            None => iri_scheme_of(s@) is None,
        },
{
    match s.parse::<iri_string::types::IriString>() {
        Ok(iri) => Some(iri.scheme_str().to_string()),
        Err(_) => None,
    }
}

/// Relies on `chrono`'s `FromStr` for `DateTime<Utc>`, which accepts an RFC
/// 3339 date-time with an offset and converts it to UTC, and on its
/// `timestamp` and `timestamp_subsec_nanos` accessors.  `chrono` documents the
/// subsecond part as at most 1,999,999,999 (the excess encodes a leap second).
#[verifier::external_body]
pub(crate) fn parse_datetime_utc(s: &str) -> (r: Option<(i64, u32)>)
    ensures
        match r {
            Some(p) => rfc3339_utc_of(s@) == Some((p.0 as int, p.1 as int)) && p.1
                <= 1_999_999_999,
            None => rfc3339_utc_of(s@) is None,
        },
{
    match s.parse::<chrono::DateTime<chrono::Utc>>() {
        Ok(dt) => Some((dt.timestamp(), dt.timestamp_subsec_nanos())),
        Err(_) => None,
    }
}

/// Relies on `oxilangtag::LanguageTag::parse_and_normalize`, which parses an
/// RFC 5646 language tag and returns its case-normalized form.
#[verifier::external_body]
pub(crate) fn normalize_langtag(s: &str) -> (r: Option<String>)
    ensures
        match r {
            Some(t) => langtag_normal_of(s@) == Some(t@),
            None => langtag_normal_of(s@) is None,
        },
{
    match oxilangtag::LanguageTag::parse_and_normalize(s) {
        Ok(tag) => Some(tag.into_inner()),
        Err(_) => None,
    }
}

/// The host of `s` when the `url` crate reads `s` as a URL with one, and
/// `None` otherwise.  The result depends on the characters alone.
pub uninterp spec fn url_host_of(s: Seq<char>) -> Option<Seq<char>>;

/// Relies on `url::Url::parse` and `Url::host_str`: the host component of a
/// parsable URL, in the normalized form the crate stores.
#[verifier::external_body]
pub(crate) fn parse_url_host(s: &str) -> (r: Option<String>)
    ensures
        match r {
            Some(h) => url_host_of(s@) == Some(h@),
            None => url_host_of(s@) is None,
        },
{
    match url::Url::parse(s) {
        Ok(u) => u.host_str().map(|h| h.to_string()),
        Err(_) => None,
    }
}

/// Relies on `chrono::Utc::now`, the wall clock; nothing can be promised of
/// the instant it reports.
#[verifier::external_body]
pub(crate) fn utc_now() -> (r: (i64, u32)) {
    let now = chrono::Utc::now();
    (now.timestamp(), now.timestamp_subsec_nanos())
}

/// Relies on `String`'s `FromIterator` over characters: collecting the
/// characters of `v` yields the string whose characters are exactly `v`.
#[verifier::external_body]
pub(crate) fn string_of_chars(v: &Vec<char>) -> (s: String)
    ensures
        s@ == v@,
{
    v.iter().collect()
}

} // verus!
