//! The document-level laws: what holds of every value that a successful
//! parse can return, stated over the mathematical pipeline and proved once
//! and for all.
use vstd::prelude::*;

use crate::fields::IriFieldView;
use crate::outside::iri_scheme_of;
use crate::parse_error::ParseError;
use crate::parsers::spec_body;
use crate::pgpcleartextmessage::{signed_at, PGPCleartextMessageView};
use crate::raw_field::{flatten_opts, RawFieldView};
use crate::securitytxt::{
    bin_acknowledgments, bin_canonical, bin_contact, bin_csaf, bin_encryption, bin_expires,
    bin_hiring, bin_policy, bin_preferred_languages, spec_document, spec_new, spec_parse_with,
    spec_typed_field, spec_typed_fields, FieldView, SecurityTxtView,
};
use crate::securitytxt_options::{ts_before, SecurityTxtOptions, Timestamp};

verus! {

/// What typing guarantees of an IRI-valued field: the recorded scheme is the
/// scheme of the recorded IRI text, and it is not "http".
pub open spec fn iri_field_wf(f: IriFieldView) -> bool {
    iri_scheme_of(f.uri) == Some(f.scheme) && f.scheme != "http"@
}

/// What typing guarantees of any single typed field.
pub open spec fn field_wf(t: FieldView, now: Timestamp) -> bool {
    match t {
        FieldView::Acknowledgments(f) => iri_field_wf(f),
        FieldView::Canonical(f) => iri_field_wf(f),
        FieldView::Contact(f) => iri_field_wf(f),
        FieldView::Csaf(f) => iri_field_wf(f),
        FieldView::Encryption(f) => iri_field_wf(f),
        FieldView::Expires(ts) => !ts_before(ts, now),
        FieldView::Hiring(f) => iri_field_wf(f),
        FieldView::Policy(f) => iri_field_wf(f),
        FieldView::PreferredLanguages(l) => l.len() >= 1,
        FieldView::Extension(_) => true,
    }
}

proof fn lemma_typed_field_wf(f: RawFieldView, now: Timestamp, t: FieldView)
    requires
        spec_typed_field(f, now) == Ok::<FieldView, ParseError>(t),
    ensures
        field_wf(t, now),
{
    let n = crate::scan::lower_seq(f.name);
    if n == "acknowledgments"@ || n == "canonical"@ || n == "contact"@ || n == "csaf"@ || n
        == "encryption"@ || n == "hiring"@ || n == "policy"@ {
        match crate::fields::spec_iri_field(f.value) {
            Ok(x) => {
                assert(iri_field_wf(x));
            },
            Err(_) => {},
        }
    } else if n == "expires"@ {
        match crate::fields::spec_expires_field(f.value, now) {
            Ok(x) => {
                assert(!ts_before(x, now));
            },
            Err(_) => {},
        }
    } else if n == "preferred-languages"@ {
        match crate::fields::spec_preferred_languages(f.value) {
            Ok(l) => {
                assert(l.len() >= 1);
            },
            Err(_) => {},
        }
    }
}

proof fn lemma_typed_fields_wf(fs: Seq<RawFieldView>, now: Timestamp, ts: Seq<FieldView>)
    requires
        spec_typed_fields(fs, now) == Ok::<Seq<FieldView>, ParseError>(ts),
    ensures
        forall|k: int| 0 <= k < ts.len() ==> field_wf(#[trigger] ts[k], now),
    decreases fs.len(),
{
    if fs.len() > 0 {
        match spec_typed_field(fs[0], now) {
            Ok(t) => {
                match spec_typed_fields(fs.drop_first(), now) {
                    Ok(r) => {
                        assert(ts == seq![t] + r);
                        lemma_typed_field_wf(fs[0], now, t);
                        lemma_typed_fields_wf(fs.drop_first(), now, r);
                        assert forall|k: int| 0 <= k < ts.len() implies field_wf(
                            #[trigger] ts[k],
                            now,
                        ) by {
                            if k == 0 {
                                assert(ts[0] == t);
                            } else {
                                assert(ts[k] == r[k - 1]);
                            }
                        }
                    },
                    Err(_) => {},
                }
            },
            Err(_) => {},
        }
    }
}

proof fn lemma_bins_wf(ts: Seq<FieldView>, now: Timestamp)
    requires
        forall|k: int| 0 <= k < ts.len() ==> field_wf(#[trigger] ts[k], now),
    ensures
        forall|j: int|
            0 <= j < bin_acknowledgments(ts).len() ==> iri_field_wf(
                #[trigger] bin_acknowledgments(ts)[j],
            ),
        forall|j: int|
            0 <= j < bin_canonical(ts).len() ==> iri_field_wf(#[trigger] bin_canonical(ts)[j]),
        forall|j: int|
            0 <= j < bin_contact(ts).len() ==> iri_field_wf(#[trigger] bin_contact(ts)[j]),
        forall|j: int| 0 <= j < bin_csaf(ts).len() ==> iri_field_wf(#[trigger] bin_csaf(ts)[j]),
        forall|j: int|
            0 <= j < bin_encryption(ts).len() ==> iri_field_wf(#[trigger] bin_encryption(ts)[j]),
        forall|j: int|
            0 <= j < bin_expires(ts).len() ==> !ts_before(#[trigger] bin_expires(ts)[j], now),
        forall|j: int|
            0 <= j < bin_hiring(ts).len() ==> iri_field_wf(#[trigger] bin_hiring(ts)[j]),
        forall|j: int|
            0 <= j < bin_policy(ts).len() ==> iri_field_wf(#[trigger] bin_policy(ts)[j]),
        forall|j: int|
            0 <= j < bin_preferred_languages(ts).len() ==> #[trigger] bin_preferred_languages(
                ts,
            )[j].len() >= 1,
    decreases ts.len(),
{
    if ts.len() > 0 {
        let d = ts.drop_last();
        assert(forall|k: int| 0 <= k < ts.len() - 1 ==> d[k] == #[trigger] ts[k]);
        lemma_bins_wf(d, now);
        assert(ts.last() == ts[ts.len() - 1]);
        assert(field_wf(ts.last(), now));
        assert forall|j: int| 0 <= j < bin_acknowledgments(ts).len() implies iri_field_wf(#[trigger] bin_acknowledgments(ts)[j]) by {
            if j < bin_acknowledgments(d).len() {
                assert(bin_acknowledgments(ts)[j] == bin_acknowledgments(d)[j]);
            } else {
                assert(bin_acknowledgments(ts)[j] == bin_acknowledgments(ts).last());
            }
        }
        assert forall|j: int| 0 <= j < bin_canonical(ts).len() implies iri_field_wf(#[trigger] bin_canonical(ts)[j]) by {
            if j < bin_canonical(d).len() {
                assert(bin_canonical(ts)[j] == bin_canonical(d)[j]);
            } else {
                assert(bin_canonical(ts)[j] == bin_canonical(ts).last());
            }
        }
        assert forall|j: int| 0 <= j < bin_contact(ts).len() implies iri_field_wf(#[trigger] bin_contact(ts)[j]) by {
            if j < bin_contact(d).len() {
                assert(bin_contact(ts)[j] == bin_contact(d)[j]);
            } else {
                assert(bin_contact(ts)[j] == bin_contact(ts).last());
            }
        }
        assert forall|j: int| 0 <= j < bin_csaf(ts).len() implies iri_field_wf(#[trigger] bin_csaf(ts)[j]) by {
            if j < bin_csaf(d).len() {
                assert(bin_csaf(ts)[j] == bin_csaf(d)[j]);
            } else {
                assert(bin_csaf(ts)[j] == bin_csaf(ts).last());
            }
        }
        assert forall|j: int| 0 <= j < bin_encryption(ts).len() implies iri_field_wf(#[trigger] bin_encryption(ts)[j]) by {
            if j < bin_encryption(d).len() {
                assert(bin_encryption(ts)[j] == bin_encryption(d)[j]);
            } else {
                assert(bin_encryption(ts)[j] == bin_encryption(ts).last());
            }
        }
        assert forall|j: int| 0 <= j < bin_expires(ts).len() implies !ts_before(#[trigger] bin_expires(ts)[j], now) by {
            if j < bin_expires(d).len() {
                assert(bin_expires(ts)[j] == bin_expires(d)[j]);
            } else {
                assert(bin_expires(ts)[j] == bin_expires(ts).last());
            }
        }
        assert forall|j: int| 0 <= j < bin_hiring(ts).len() implies iri_field_wf(#[trigger] bin_hiring(ts)[j]) by {
            if j < bin_hiring(d).len() {
                assert(bin_hiring(ts)[j] == bin_hiring(d)[j]);
            } else {
                assert(bin_hiring(ts)[j] == bin_hiring(ts).last());
            }
        }
        assert forall|j: int| 0 <= j < bin_policy(ts).len() implies iri_field_wf(#[trigger] bin_policy(ts)[j]) by {
            if j < bin_policy(d).len() {
                assert(bin_policy(ts)[j] == bin_policy(d)[j]);
            } else {
                assert(bin_policy(ts)[j] == bin_policy(ts).last());
            }
        }
        assert forall|j: int| 0 <= j < bin_preferred_languages(ts).len() implies (#[trigger] bin_preferred_languages(ts)[j]).len() >= 1 by {
            if j < bin_preferred_languages(d).len() {
                assert(bin_preferred_languages(ts)[j] == bin_preferred_languages(d)[j]);
            } else {
                assert(bin_preferred_languages(ts)[j] == bin_preferred_languages(ts).last());
            }
        }
    }
}

/// The shape every accepted document has: a Contact, a fresh single Expires
/// instant, a non-empty language list when one is present, and no IRI field
/// whose scheme is "http".
pub open spec fn document_invariant(d: SecurityTxtView, now: Timestamp) -> bool {
    &&& d.contact.len() >= 1
    &&& !ts_before(d.expires, now)
    &&& (match d.preferred_languages {
        Some(l) => l.len() >= 1,
        None => true,
    })
    &&& forall|j: int|
        0 <= j < d.acknowledgments.len() ==> iri_field_wf(#[trigger] d.acknowledgments[j])
    &&& forall|j: int| 0 <= j < d.canonical.len() ==> iri_field_wf(#[trigger] d.canonical[j])
    &&& forall|j: int| 0 <= j < d.contact.len() ==> iri_field_wf(#[trigger] d.contact[j])
    &&& forall|j: int| 0 <= j < d.csaf.len() ==> iri_field_wf(#[trigger] d.csaf[j])
    &&& forall|j: int| 0 <= j < d.encryption.len() ==> iri_field_wf(#[trigger] d.encryption[j])
    &&& forall|j: int| 0 <= j < d.hiring.len() ==> iri_field_wf(#[trigger] d.hiring[j])
    &&& forall|j: int| 0 <= j < d.policy.len() ==> iri_field_wf(#[trigger] d.policy[j])
}

/// Typing and validation only ever emit documents with the invariant shape.
pub proof fn lemma_new_invariant(
    fs: Seq<RawFieldView>,
    options: SecurityTxtOptions,
    d: SecurityTxtView,
)
    requires
        spec_new(fs, options) == Ok::<SecurityTxtView, ParseError>(d),
    ensures
        document_invariant(d, options.now),
{
    match spec_typed_fields(fs, options.now) {
        Ok(ts) => {
            lemma_typed_fields_wf(fs, options.now, ts);
            lemma_bins_wf(ts, options.now);
            assert(d.expires == bin_expires(ts)[bin_expires(ts).len() - 1]);
        },
        Err(_) => {
            assert(false);
        },
    }
}

/// Every successful parse, signed or not, returns a document with the
/// invariant shape.
pub proof fn lemma_parse_invariant(
    text: Seq<char>,
    options: SecurityTxtOptions,
    d: SecurityTxtView,
)
    requires
        spec_parse_with(text, options) == Ok::<SecurityTxtView, ParseError>(d),
    ensures
        document_invariant(d, options.now),
{
    match spec_body(text) {
        Some(ls) => {
            lemma_new_invariant(flatten_opts(ls), options, d);
        },
        None => {
            match signed_at(text, options.strict) {
                Some(m) => {
                    match spec_body(m.cleartext) {
                        Some(ls) => {
                            lemma_new_invariant(flatten_opts(ls), options, d);
                        },
                        None => {
                            assert(false);
                        },
                    }
                },
                None => {
                    assert(false);
                },
            }
        },
    }
}

/// For every input that parses successfully, the document holds at least one
/// Contact field.
pub proof fn lemma_contact_count(text: Seq<char>, options: SecurityTxtOptions, d: SecurityTxtView)
    requires
        spec_parse_with(text, options) == Ok::<SecurityTxtView, ParseError>(d),
    ensures
        d.contact.len() >= 1,
{
    lemma_parse_invariant(text, options, d);
}

/// For every successful parse, the expiry instant is not before the `now`
/// the parse ran under.
pub proof fn lemma_expires_fresh(text: Seq<char>, options: SecurityTxtOptions, d: SecurityTxtView)
    requires
        spec_parse_with(text, options) == Ok::<SecurityTxtView, ParseError>(d),
    ensures
        !ts_before(d.expires, options.now),
{
    lemma_parse_invariant(text, options, d);
}

/// A validated document consumed exactly one Expires field, and carries that
/// field's instant.
pub proof fn lemma_expires_once(ts: Seq<FieldView>, d: SecurityTxtView)
    requires
        spec_document(ts) == Ok::<SecurityTxtView, ParseError>(d),
    ensures
        bin_expires(ts).len() == 1,
        d.expires == bin_expires(ts)[0],
{
}

/// For every successful parse, the language list is absent or non-empty.
pub proof fn lemma_preferred_languages_shape(
    text: Seq<char>,
    options: SecurityTxtOptions,
    d: SecurityTxtView,
)
    requires
        spec_parse_with(text, options) == Ok::<SecurityTxtView, ParseError>(d),
    ensures
        match d.preferred_languages {
            Some(l) => l.len() >= 1,
            None => true,
        },
{
    lemma_parse_invariant(text, options, d);
}

/// For every successful parse, no IRI-valued field of the document has the
/// scheme "http".
pub proof fn lemma_no_insecure_http(
    text: Seq<char>,
    options: SecurityTxtOptions,
    d: SecurityTxtView,
)
    requires
        spec_parse_with(text, options) == Ok::<SecurityTxtView, ParseError>(d),
    ensures
        forall|j: int|
            0 <= j < d.acknowledgments.len() ==> (#[trigger] d.acknowledgments[j]).scheme
                != "http"@,
        forall|j: int| 0 <= j < d.canonical.len() ==> (#[trigger] d.canonical[j]).scheme != "http"@,
        forall|j: int| 0 <= j < d.contact.len() ==> (#[trigger] d.contact[j]).scheme != "http"@,
        forall|j: int| 0 <= j < d.csaf.len() ==> (#[trigger] d.csaf[j]).scheme != "http"@,
        forall|j: int|
            0 <= j < d.encryption.len() ==> (#[trigger] d.encryption[j]).scheme != "http"@,
        forall|j: int| 0 <= j < d.hiring.len() ==> (#[trigger] d.hiring[j]).scheme != "http"@,
        forall|j: int| 0 <= j < d.policy.len() ==> (#[trigger] d.policy[j]).scheme != "http"@,
{
    lemma_parse_invariant(text, options, d);
}

/// The round trip of the signed wrapper: when the unsigned grammar fails on
/// the input but the PGP frame is recognized and its recovered payload
/// parses as an unsigned body, parsing the input and parsing the payload on
/// its own yield the same outcome.
pub proof fn lemma_signed_round_trip(
    text: Seq<char>,
    m: PGPCleartextMessageView,
    options: SecurityTxtOptions,
)
    requires
        spec_body(text) is None,
        signed_at(text, options.strict) == Some(m),
        spec_body(m.cleartext) is Some,
    ensures
        spec_parse_with(text, options) == spec_parse_with(m.cleartext, options),
{
}

/// For a fixed `now`, a parse is a pure function of its input text and
/// options: equal inputs give equal outcomes.
pub proof fn lemma_parse_deterministic(
    t1: Seq<char>,
    t2: Seq<char>,
    o1: SecurityTxtOptions,
    o2: SecurityTxtOptions,
)
    requires
        t1 == t2,
        o1 == o2,
    ensures
        spec_parse_with(t1, o1) == spec_parse_with(t2, o2),
{
}

proof fn lemma_eol_ends_lf(s: Seq<char>, i: int)
    requires
        0 <= i <= s.len(),
        crate::parsers::eol_at(s, i) is Some,
    ensures
        ({
            let e = crate::parsers::eol_at(s, i)->Some_0;
            0 < e <= s.len() && s[e - 1] == '\n'
        }),
{
    crate::scan::lemma_run_end(crate::scan::CharClass::Wsp, s, i);
}

proof fn lemma_line_ends_lf(s: Seq<char>, i: int)
    requires
        0 <= i <= s.len(),
        crate::parsers::line_at(s, i) is Some,
    ensures
        ({
            let e = crate::parsers::line_at(s, i)->Some_0.0;
            0 < e <= s.len() && s[e - 1] == '\n'
        }),
{
    if i < s.len() && s[i] == '#' {
        let j = crate::scan::run_end(crate::scan::CharClass::Comment, s, i + 1);
        crate::scan::lemma_run_end(crate::scan::CharClass::Comment, s, i + 1);
        lemma_eol_ends_lf(s, j);
    } else {
        let j = crate::scan::run_end(crate::scan::CharClass::Ftext, s, i);
        crate::scan::lemma_run_end(crate::scan::CharClass::Ftext, s, i);
        if j > i && j < s.len() && s[j] == ':' && j + 1 < s.len() && s[j + 1] == ' ' {
            let vend = crate::parsers::unstructured_core_end(s, j + 2);
            lemma_unstructured_bounds(s, j + 2);
            let wend = crate::scan::run_end(crate::scan::CharClass::Wsp, s, vend);
            crate::scan::lemma_run_end(crate::scan::CharClass::Wsp, s, vend);
            lemma_eol_ends_lf(s, wend);
        } else {
            lemma_eol_ends_lf(s, i);
        }
    }
}

proof fn lemma_unstructured_bounds(s: Seq<char>, i: int)
    requires
        0 <= i <= s.len(),
    ensures
        i <= crate::parsers::unstructured_core_end(s, i) <= s.len(),
    decreases s.len() - i,
{
    let k = crate::parsers::fws_opt_end(s, i);
    if i <= k < s.len() && crate::chars::vchar(s[k]) {
        lemma_unstructured_bounds(s, k + 1);
    }
}

proof fn lemma_lines_end(s: Seq<char>, i: int)
    requires
        0 <= i <= s.len(),
    ensures
        crate::parsers::lines_at(s, i).0 == i || (0 < crate::parsers::lines_at(s, i).0 <= s.len()
            && s[crate::parsers::lines_at(s, i).0 - 1] == '\n'),
    decreases s.len() - i,
{
    match crate::parsers::line_at(s, i) {
        Some(p) => {
            if i < p.0 <= s.len() {
                lemma_lines_end(s, p.0);
                if crate::parsers::lines_at(s, p.0).0 == p.0 {
                    lemma_line_ends_lf(s, i);
                }
            }
        },
        None => {},
    }
}

/// The unsigned grammar consumes whole lines only: an input it accepts ends
/// with the line feed of its last line, so any trailing bytes after the
/// final LF leave it rejected.
pub proof fn lemma_body_ends_at_lf(text: Seq<char>)
    requires
        spec_body(text) is Some,
    ensures
        text.len() > 0,
        text[text.len() - 1] == '\n',
{
    lemma_lines_end(text, 0);
}

proof fn lemma_first_error(fs: Seq<RawFieldView>, now: Timestamp, k: int, e: ParseError)
    requires
        0 <= k < fs.len(),
        forall|j: int| 0 <= j < k ==> spec_typed_field(#[trigger] fs[j], now) is Ok,
        spec_typed_field(fs[k], now) == Err::<FieldView, ParseError>(e),
    ensures
        spec_typed_fields(fs, now) == Err::<Seq<FieldView>, ParseError>(e),
    decreases k,
{
    if k == 0 {
    } else {
        let rest = fs.drop_first();
        assert(forall|j: int| 0 <= j < k - 1 ==> rest[j] == #[trigger] fs[j + 1]);
        assert(rest[k - 1] == fs[k]);
        lemma_first_error(rest, now, k - 1, e);
    }
}

/// A Contact field whose IRI carries the scheme "http" rejects the whole
/// document with `InsecureHTTP`, whatever the fields around it hold, as long
/// as no earlier field fails first.
pub proof fn lemma_insecure_contact_rejected(
    fs: Seq<RawFieldView>,
    options: SecurityTxtOptions,
    k: int,
)
    requires
        0 <= k < fs.len(),
        crate::scan::lower_seq(fs[k].name) == "contact"@,
        iri_scheme_of(crate::scan::trim_of(fs[k].value)) == Some("http"@),
        forall|j: int| 0 <= j < k ==> spec_typed_field(#[trigger] fs[j], options.now) is Ok,
    ensures
        spec_new(fs, options) == Err::<SecurityTxtView, ParseError>(ParseError::InsecureHTTP),
{
    assert(spec_typed_field(fs[k], options.now) == Err::<FieldView, ParseError>(
        ParseError::InsecureHTTP,
    ));
    lemma_first_error(fs, options.now, k, ParseError::InsecureHTTP);
}


/// The freshness bound is not strict: an Expires instant exactly equal to
/// `now` is accepted, and the document carries it.
pub proof fn lemma_expires_equal_now_accepted(v: Seq<char>, now: Timestamp)
    requires
        crate::outside::rfc3339_utc_of(crate::scan::trim_of(v)) == Some(
            (now.secs as int, now.nanos as int),
        ),
    ensures
        crate::fields::spec_expires_field(v, now) == Ok::<Timestamp, ParseError>(now),
{
}

} // verus!
