//! The typed fields of a security.txt document.  Typing trims the raw value
//! and hands it to the outside parser the field calls for: IRI-valued fields
//! keep the trimmed text and its scheme, `Expires` becomes a UTC instant, and
//! `Preferred-Languages` a list of normalized RFC 5646 tags.
use vstd::prelude::*;
use vstd::string::StringExecFns;

use crate::outside::{
    iri_scheme_of, langtag_normal_of, normalize_langtag, parse_datetime_utc, parse_iri_scheme,
    rfc3339_utc_of,
};
use crate::parse_error::ParseError;
use crate::scan::{chars_vec, run_end, scan, trim_of, trim_to_string, CharClass};
use crate::securitytxt_options::Timestamp;

verus! {

/// What typing an IRI-valued field leaves behind: the trimmed text of the
/// IRI, and its scheme.
pub struct IriFieldView {
    pub uri: Seq<char>,
    pub scheme: Seq<char>,
}

/// The typing of an IRI-valued field: trim, validate as an IRI, and refuse
/// the scheme "http".
pub open spec fn spec_iri_field(v: Seq<char>) -> Result<IriFieldView, ParseError> {
    let t = trim_of(v);
    match iri_scheme_of(t) {
        None => Err(ParseError::Malformed),
        Some(sch) => {
            if sch == "http"@ {
                Err(ParseError::InsecureHTTP)
            } else {
                Ok(IriFieldView { uri: t, scheme: sch })
            }
        },
    }
}

/// The shared constructor behind every IRI-valued field: the trimmed text
/// and the scheme on success.
fn new_iri(uri: &str) -> (r: Result<(String, String), ParseError>)
    ensures
        match r {
            Ok(p) => spec_iri_field(uri@) == Ok::<IriFieldView, ParseError>(IriFieldView { uri: p.0@, scheme: p.1@ }),
            Err(e) => spec_iri_field(uri@) == Err::<IriFieldView, ParseError>(e),
        },
{
    let v = chars_vec(uri);
    let t = trim_to_string(&v);
    match parse_iri_scheme(t.as_str()) {
        None => Err(ParseError::Malformed),
        Some(sch) => {
            if sch == String::from_str("http") {
                Err(ParseError::InsecureHTTP)
            } else {
                Ok((t, sch))
            }
        },
    }
}

/// An Acknowledgments field links to a page where security researchers are
/// recognized.
#[derive(Debug, PartialEq)]
pub struct AcknowledgmentsField {
    /// The IRI of the link.
    pub uri: String,
    /// Its scheme.
    pub scheme: String,
}

impl View for AcknowledgmentsField {
    type V = IriFieldView;

    open spec fn view(&self) -> IriFieldView {
        IriFieldView { uri: self.uri@, scheme: self.scheme@ }
    }
}

impl AcknowledgmentsField {
    pub fn new(uri: &str) -> (r: Result<Self, ParseError>)
        ensures
            match r {
                Ok(f) => spec_iri_field(uri@) == Ok::<IriFieldView, ParseError>(f@),
                Err(e) => spec_iri_field(uri@) == Err::<IriFieldView, ParseError>(e),
            },
    {
        match new_iri(uri) {
            Ok(p) => Ok(Self { uri: p.0, scheme: p.1 }),
            Err(e) => Err(e),
        }
    }
}

/// A Canonical field holds a canonical URI of the security.txt file itself.
#[derive(Debug, PartialEq)]
pub struct CanonicalField {
    /// The IRI of the link.
    pub uri: String,
    /// Its scheme.
    pub scheme: String,
}

impl View for CanonicalField {
    type V = IriFieldView;

    open spec fn view(&self) -> IriFieldView {
        IriFieldView { uri: self.uri@, scheme: self.scheme@ }
    }
}

impl CanonicalField {
    pub fn new(uri: &str) -> (r: Result<Self, ParseError>)
        ensures
            match r {
                Ok(f) => spec_iri_field(uri@) == Ok::<IriFieldView, ParseError>(f@),
                Err(e) => spec_iri_field(uri@) == Err::<IriFieldView, ParseError>(e),
            },
    {
        match new_iri(uri) {
            Ok(p) => Ok(Self { uri: p.0, scheme: p.1 }),
            Err(e) => Err(e),
        }
    }
}

/// A Contact field holds contact information for reporting vulnerabilities.
#[derive(Debug, PartialEq)]
pub struct ContactField {
    /// The IRI of the link.
    pub uri: String,
    /// Its scheme.
    pub scheme: String,
}

impl View for ContactField {
    type V = IriFieldView;

    open spec fn view(&self) -> IriFieldView {
        IriFieldView { uri: self.uri@, scheme: self.scheme@ }
    }
}

impl ContactField {
    pub fn new(uri: &str) -> (r: Result<Self, ParseError>)
        ensures
            match r {
                Ok(f) => spec_iri_field(uri@) == Ok::<IriFieldView, ParseError>(f@),
                Err(e) => spec_iri_field(uri@) == Err::<IriFieldView, ParseError>(e),
            },
    {
        match new_iri(uri) {
            Ok(p) => Ok(Self { uri: p.0, scheme: p.1 }),
            Err(e) => Err(e),
        }
    }
}

/// A CSAF field points at the provider-metadata.json of the issuer's CSAF
/// endpoint.
#[derive(Debug, PartialEq)]
pub struct CsafField {
    /// The IRI of the link.
    pub uri: String,
    /// Its scheme.
    pub scheme: String,
}

impl View for CsafField {
    type V = IriFieldView;

    open spec fn view(&self) -> IriFieldView {
        IriFieldView { uri: self.uri@, scheme: self.scheme@ }
    }
}

impl CsafField {
    pub fn new(uri: &str) -> (r: Result<Self, ParseError>)
        ensures
            match r {
                Ok(f) => spec_iri_field(uri@) == Ok::<IriFieldView, ParseError>(f@),
                Err(e) => spec_iri_field(uri@) == Err::<IriFieldView, ParseError>(e),
            },
    {
        match new_iri(uri) {
            Ok(p) => Ok(Self { uri: p.0, scheme: p.1 }),
            Err(e) => Err(e),
        }
    }
}

/// An Encryption field links to a key for encrypted communication.
#[derive(Debug, PartialEq)]
pub struct EncryptionField {
    /// The IRI of the link.
    pub uri: String,
    /// Its scheme.
    pub scheme: String,
}

impl View for EncryptionField {
    type V = IriFieldView;

    open spec fn view(&self) -> IriFieldView {
        IriFieldView { uri: self.uri@, scheme: self.scheme@ }
    }
}

impl EncryptionField {
    pub fn new(uri: &str) -> (r: Result<Self, ParseError>)
        ensures
            match r {
                Ok(f) => spec_iri_field(uri@) == Ok::<IriFieldView, ParseError>(f@),
                Err(e) => spec_iri_field(uri@) == Err::<IriFieldView, ParseError>(e),
            },
    {
        match new_iri(uri) {
            Ok(p) => Ok(Self { uri: p.0, scheme: p.1 }),
            Err(e) => Err(e),
        }
    }
}

/// A Hiring field links to security-related job positions.
#[derive(Debug, PartialEq)]
pub struct HiringField {
    /// The IRI of the link.
    pub uri: String,
    /// Its scheme.
    pub scheme: String,
}

impl View for HiringField {
    type V = IriFieldView;

    open spec fn view(&self) -> IriFieldView {
        IriFieldView { uri: self.uri@, scheme: self.scheme@ }
    }
}

impl HiringField {
    pub fn new(uri: &str) -> (r: Result<Self, ParseError>)
        ensures
            match r {
                Ok(f) => spec_iri_field(uri@) == Ok::<IriFieldView, ParseError>(f@),
                Err(e) => spec_iri_field(uri@) == Err::<IriFieldView, ParseError>(e),
            },
    {
        match new_iri(uri) {
            Ok(p) => Ok(Self { uri: p.0, scheme: p.1 }),
            Err(e) => Err(e),
        }
    }
}

/// A Policy field links to the security policy page.
#[derive(Debug, PartialEq)]
pub struct PolicyField {
    /// The IRI of the link.
    pub uri: String,
    /// Its scheme.
    pub scheme: String,
}

impl View for PolicyField {
    type V = IriFieldView;

    open spec fn view(&self) -> IriFieldView {
        IriFieldView { uri: self.uri@, scheme: self.scheme@ }
    }
}

impl PolicyField {
    pub fn new(uri: &str) -> (r: Result<Self, ParseError>)
        ensures
            match r {
                Ok(f) => spec_iri_field(uri@) == Ok::<IriFieldView, ParseError>(f@),
                Err(e) => spec_iri_field(uri@) == Err::<IriFieldView, ParseError>(e),
            },
    {
        match new_iri(uri) {
            Ok(p) => Ok(Self { uri: p.0, scheme: p.1 }),
            Err(e) => Err(e),
        }
    }
}

/// The typing of an Expires value: trim, read as RFC 3339, refuse an instant
/// strictly before `now`.
pub open spec fn spec_expires_field(v: Seq<char>, now: Timestamp) -> Result<Timestamp, ParseError> {
    match rfc3339_utc_of(trim_of(v)) {
        None => Err(ParseError::Malformed),
        Some(p) => {
            if p.0 < i64::MIN as int || p.0 > i64::MAX as int || p.1 < 0 || p.1 > u32::MAX as int {
                Err(ParseError::Malformed)
            } else if p.0 < now.secs || (p.0 == now.secs && p.1 < now.nanos) {
                Err(ParseError::ExpiresFieldExpired)
            } else {
                Ok(Timestamp { secs: p.0 as i64, nanos: p.1 as u32 })
            }
        },
    }
}

/// The Expires field holds the instant from which the file counts as stale.
#[derive(Debug, PartialEq)]
pub struct ExpiresField {
    /// The UTC instant from which the file counts as stale.
    pub datetime: Timestamp,
}

impl View for ExpiresField {
    type V = Timestamp;

    open spec fn view(&self) -> Timestamp {
        self.datetime
    }
}

impl ExpiresField {
    pub fn new(datetime: &str, now: Timestamp) -> (r: Result<Self, ParseError>)
        ensures
            match r {
                Ok(f) => spec_expires_field(datetime@, now) == Ok::<Timestamp, ParseError>(f@),
                Err(e) => spec_expires_field(datetime@, now) == Err::<Timestamp, ParseError>(e),
            },
    {
        let v = chars_vec(datetime);
        let t = trim_to_string(&v);
        match parse_datetime_utc(t.as_str()) {
            None => Err(ParseError::Malformed),
            Some(p) => {
                let ts = Timestamp { secs: p.0, nanos: p.1 };
                if ts.before(&now) {
                    Err(ParseError::ExpiresFieldExpired)
                } else {
                    Ok(Self { datetime: ts })
                }
            },
        }
    }
}

/// The list of normalized tags that a Preferred-Languages value yields from
/// position `i` on: the value is split on every comma, each piece trimmed
/// and normalized, and the first piece that is no language tag rejects the
/// whole value.
pub open spec fn spec_langs_from(s: Seq<char>, i: int) -> Result<Seq<Seq<char>>, ParseError>
    decreases s.len() - i,
{
    let j = run_end(CharClass::NonComma, s, i);
    if 0 <= i <= j <= s.len() {
        match langtag_normal_of(trim_of(s.subrange(i, j))) {
            None => Err(ParseError::Malformed),
            Some(t) => {
                if j < s.len() {
                    match spec_langs_from(s, j + 1) {
                        Err(e) => Err(e),
                        Ok(r) => Ok(seq![t] + r),
                    }
                } else {
                    Ok(seq![t])
                }
            },
        }
    } else {
        Err(ParseError::Malformed)
    }
}

/// The typing of a Preferred-Languages value.  Splitting on commas always
/// yields at least one piece, so the empty-list rejection below can never
/// fire; it stands because the document rules name it.
pub open spec fn spec_preferred_languages(v: Seq<char>) -> Result<Seq<Seq<char>>, ParseError> {
    match spec_langs_from(v, 0) {
        Err(e) => Err(e),
        Ok(l) => {
            if l.len() == 0 {
                Err(ParseError::IllegalField)
            } else {
                Ok(l)
            }
        },
    }
}

/// The Preferred-Languages field lists the languages preferred for reports,
/// most preferred first.
#[derive(Debug, PartialEq)]
pub struct PreferredLanguagesField {
    /// The normalized RFC 5646 tags, in source order.
    pub languages: Vec<String>,
}

impl View for PreferredLanguagesField {
    type V = Seq<Seq<char>>;

    open spec fn view(&self) -> Seq<Seq<char>> {
        self.languages.deep_view()
    }
}

impl PreferredLanguagesField {
    pub fn new(languages: &str) -> (r: Result<Self, ParseError>)
        ensures
            match r {
                Ok(f) => spec_preferred_languages(languages@) == Ok::<Seq<Seq<char>>, ParseError>(f@),
                Err(e) => spec_preferred_languages(languages@) == Err::<Seq<Seq<char>>, ParseError>(e),
            },
    {
        let s = chars_vec(languages);
        let mut tags: Vec<String> = Vec::new();
        let mut p: usize = 0;
        proof {
            assert(tags.deep_view() =~= Seq::<Seq<char>>::empty());
        }
        #[verifier::loop_isolation(true)]
        loop
            invariant_except_break
                spec_langs_from(s@, 0) == (match spec_langs_from(s@, p as int) {
                    Err(e) => Err::<Seq<Seq<char>>, ParseError>(e),
                    Ok(r) => Ok(tags.deep_view() + r),
                }),
            invariant
                0 <= p <= s@.len(),
                s@ == languages@,
            ensures
                spec_langs_from(s@, 0) == Ok::<Seq<Seq<char>>, ParseError>(tags.deep_view()),
            decreases s@.len() - p,
        {
            let j: usize = scan(CharClass::NonComma, &s, p);
            let piece = crate::scan::subvec(&s, p, j);
            let trimmed = trim_to_string(&piece);
            match normalize_langtag(trimmed.as_str()) {
                None => {
                    proof {
                        assert(spec_langs_from(s@, p as int) == Err::<Seq<Seq<char>>, ParseError>(
                            ParseError::Malformed,
                        ));
                    }
                    return Err(ParseError::Malformed);
                },
                Some(tag) => {
                    let ghost pre = tags.deep_view();
                    let ghost tv = tag@;
                    tags.push(tag);
                    proof {
                        assert(tags.deep_view() =~= pre + seq![tv]);
                    }
                    if j < s.len() {
                        proof {
                            let ghost rest = spec_langs_from(s@, j as int + 1);
                            assert(spec_langs_from(s@, p as int) == (match rest {
                                Err(e) => Err::<Seq<Seq<char>>, ParseError>(e),
                                Ok(r) => Ok(seq![tv] + r),
                            }));
                            match rest {
                                Ok(r) => {
                                    assert((pre + seq![tv]) + r =~= pre + (seq![tv] + r));
                                },
                                Err(_) => {},
                            }
                        }
                        p = j + 1;
                    } else {
                        proof {
                            assert(spec_langs_from(s@, p as int) == Ok::<
                                Seq<Seq<char>>,
                                ParseError,
                            >(seq![tv]));
                            assert(pre + seq![tv] =~= tags.deep_view());
                        }
                        break;
                    }
                },
            }
        }
        if tags.len() == 0 {
            Err(ParseError::IllegalField)
        } else {
            Ok(Self { languages: tags })
        }
    }
}

/// The view of an extension field: its lowercased name and verbatim value.
pub struct ExtFieldView {
    pub name: Seq<char>,
    pub value: Seq<char>,
}

/// The Extension field is the catch-all for names this library does not
/// know: the lowercased name, and the value untouched.
#[derive(Debug, PartialEq)]
pub struct ExtensionField {
    /// Name of the extension field.
    pub name: String,
    /// Value of the extension field.
    pub value: String,
}

impl View for ExtensionField {
    type V = ExtFieldView;

    open spec fn view(&self) -> ExtFieldView {
        ExtFieldView { name: self.name@, value: self.value@ }
    }
}

impl ExtensionField {
    pub fn new(name: String, value: String) -> (r: Result<Self, ParseError>)
        ensures
            match r {
                Ok(f) => f@ == (ExtFieldView { name: name@, value: value@ }),
                Err(_) => false,
            },
    {
        Ok(Self { name, value })
    }
}

} // verus!
