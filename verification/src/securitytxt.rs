//! The document itself: typing of the raw fields, the cardinality rules, and
//! the two entry points.  A parse first tries the unsigned grammar; only when
//! that grammar fails does it look for a PGP cleartext envelope, and the
//! recovered payload then runs through the very same unsigned pipeline.
use vstd::prelude::*;
use vstd::string::StringExecFns;

use crate::fields::{
    spec_expires_field, spec_iri_field, spec_preferred_languages, AcknowledgmentsField,
    CanonicalField, ContactField, CsafField, EncryptionField, ExpiresField, ExtFieldView,
    ExtensionField, HiringField, IriFieldView, PolicyField, PreferredLanguagesField,
};
use crate::parse_error::ParseError;
use crate::parsers::{body_parser, spec_body};
use crate::pgpcleartextmessage::{signed_at, PGPCleartextMessageParser};
use crate::raw_field::{flatten_opts, opt_rf_views, rf_views, RawField, RawFieldView};
use crate::scan::{chars_vec, lower_seq, lower_string};
use crate::securitytxt_options::{SecurityTxtOptions, Timestamp};

verus! {

/// A typed field, the way the mathematical pipeline sees it.
pub enum FieldView {
    Acknowledgments(IriFieldView),
    Canonical(IriFieldView),
    Contact(IriFieldView),
    Csaf(IriFieldView),
    Encryption(IriFieldView),
    Expires(Timestamp),
    Hiring(IriFieldView),
    Policy(IriFieldView),
    PreferredLanguages(Seq<Seq<char>>),
    Extension(ExtFieldView),
}

/// The views of a sequence of viewable values, in order.
pub open spec fn views_of<T: View>(s: Seq<T>) -> Seq<<T as View>::V> {
    Seq::new(s.len(), |i: int| s[i]@)
}

/// The typing of one raw field: the name is lowercased and dispatched; an
/// unknown name becomes an extension field with that lowercased name.
pub open spec fn spec_typed_field(f: RawFieldView, now: Timestamp) -> Result<FieldView, ParseError> {
    let n = lower_seq(f.name);
    if n == "acknowledgments"@ {
        match spec_iri_field(f.value) {
            Ok(x) => Ok(FieldView::Acknowledgments(x)),
            Err(e) => Err(e),
        }
    } else if n == "canonical"@ {
        match spec_iri_field(f.value) {
            Ok(x) => Ok(FieldView::Canonical(x)),
            Err(e) => Err(e),
        }
    } else if n == "contact"@ {
        match spec_iri_field(f.value) {
            Ok(x) => Ok(FieldView::Contact(x)),
            Err(e) => Err(e),
        }
    } else if n == "csaf"@ {
        match spec_iri_field(f.value) {
            Ok(x) => Ok(FieldView::Csaf(x)),
            Err(e) => Err(e),
        }
    } else if n == "encryption"@ {
        match spec_iri_field(f.value) {
            Ok(x) => Ok(FieldView::Encryption(x)),
            Err(e) => Err(e),
        }
    } else if n == "expires"@ {
        match spec_expires_field(f.value, now) {
            Ok(x) => Ok(FieldView::Expires(x)),
            Err(e) => Err(e),
        }
    } else if n == "hiring"@ {
        match spec_iri_field(f.value) {
            Ok(x) => Ok(FieldView::Hiring(x)),
            Err(e) => Err(e),
        }
    } else if n == "policy"@ {
        match spec_iri_field(f.value) {
            Ok(x) => Ok(FieldView::Policy(x)),
            Err(e) => Err(e),
        }
    } else if n == "preferred-languages"@ {
        match spec_preferred_languages(f.value) {
            Ok(x) => Ok(FieldView::PreferredLanguages(x)),
            Err(e) => Err(e),
        }
    } else {
        Ok(FieldView::Extension(ExtFieldView { name: n, value: f.value }))
    }
}

/// The typing of a whole field list, left to right; the first failure is the
/// document's error.
pub open spec fn spec_typed_fields(fs: Seq<RawFieldView>, now: Timestamp) -> Result<
    Seq<FieldView>,
    ParseError,
>
    decreases fs.len(),
{
    if fs.len() == 0 {
        Ok(Seq::empty())
    } else {
        match spec_typed_field(fs[0], now) {
            Err(e) => Err(e),
            Ok(t) => match spec_typed_fields(fs.drop_first(), now) {
                Err(e) => Err(e),
                Ok(r) => Ok(seq![t] + r),
            },
        }
    }
}

/// The Acknowledgments fields of `ts`, in order.
pub open spec fn bin_acknowledgments(ts: Seq<FieldView>) -> Seq<IriFieldView>
    decreases ts.len(),
{
    if ts.len() == 0 {
        Seq::empty()
    } else {
        bin_acknowledgments(ts.drop_last()) + (match ts.last() {
            FieldView::Acknowledgments(f) => seq![f],
            _ => Seq::empty(),
        })
    }
}

/// The Canonical fields of `ts`, in order.
pub open spec fn bin_canonical(ts: Seq<FieldView>) -> Seq<IriFieldView>
    decreases ts.len(),
{
    if ts.len() == 0 {
        Seq::empty()
    } else {
        bin_canonical(ts.drop_last()) + (match ts.last() {
            FieldView::Canonical(f) => seq![f],
            _ => Seq::empty(),
        })
    }
}

/// The Contact fields of `ts`, in order.
pub open spec fn bin_contact(ts: Seq<FieldView>) -> Seq<IriFieldView>
    decreases ts.len(),
{
    if ts.len() == 0 {
        Seq::empty()
    } else {
        bin_contact(ts.drop_last()) + (match ts.last() {
            FieldView::Contact(f) => seq![f],
            _ => Seq::empty(),
        })
    }
}

/// The CSAF fields of `ts`, in order.
pub open spec fn bin_csaf(ts: Seq<FieldView>) -> Seq<IriFieldView>
    decreases ts.len(),
{
    if ts.len() == 0 {
        Seq::empty()
    } else {
        bin_csaf(ts.drop_last()) + (match ts.last() {
            FieldView::Csaf(f) => seq![f],
            _ => Seq::empty(),
        })
    }
}

/// The Encryption fields of `ts`, in order.
pub open spec fn bin_encryption(ts: Seq<FieldView>) -> Seq<IriFieldView>
    decreases ts.len(),
{
    if ts.len() == 0 {
        Seq::empty()
    } else {
        bin_encryption(ts.drop_last()) + (match ts.last() {
            FieldView::Encryption(f) => seq![f],
            _ => Seq::empty(),
        })
    }
}

/// The Expires instants of `ts`, in order.
pub open spec fn bin_expires(ts: Seq<FieldView>) -> Seq<Timestamp>
    decreases ts.len(),
{
    if ts.len() == 0 {
        Seq::empty()
    } else {
        bin_expires(ts.drop_last()) + (match ts.last() {
            FieldView::Expires(t) => seq![t],
            _ => Seq::empty(),
        })
    }
}

/// The Hiring fields of `ts`, in order.
pub open spec fn bin_hiring(ts: Seq<FieldView>) -> Seq<IriFieldView>
    decreases ts.len(),
{
    if ts.len() == 0 {
        Seq::empty()
    } else {
        bin_hiring(ts.drop_last()) + (match ts.last() {
            FieldView::Hiring(f) => seq![f],
            _ => Seq::empty(),
        })
    }
}

/// The Policy fields of `ts`, in order.
pub open spec fn bin_policy(ts: Seq<FieldView>) -> Seq<IriFieldView>
    decreases ts.len(),
{
    if ts.len() == 0 {
        Seq::empty()
    } else {
        bin_policy(ts.drop_last()) + (match ts.last() {
            FieldView::Policy(f) => seq![f],
            _ => Seq::empty(),
        })
    }
}

/// The Preferred-Languages lists of `ts`, in order.
pub open spec fn bin_preferred_languages(ts: Seq<FieldView>) -> Seq<Seq<Seq<char>>>
    decreases ts.len(),
{
    if ts.len() == 0 {
        Seq::empty()
    } else {
        bin_preferred_languages(ts.drop_last()) + (match ts.last() {
            FieldView::PreferredLanguages(l) => seq![l],
            _ => Seq::empty(),
        })
    }
}

/// The extension fields of `ts`, in order.
pub open spec fn bin_extension(ts: Seq<FieldView>) -> Seq<ExtFieldView>
    decreases ts.len(),
{
    if ts.len() == 0 {
        Seq::empty()
    } else {
        bin_extension(ts.drop_last()) + (match ts.last() {
            FieldView::Extension(f) => seq![f],
            _ => Seq::empty(),
        })
    }
}

/// How appending one typed field moves every bin: the matching bin grows by
/// the payload, every other bin stays.
pub proof fn lemma_bins_push(ts: Seq<FieldView>, t: FieldView)
    ensures
        t is Acknowledgments ==> bin_acknowledgments(ts + seq![t]) == bin_acknowledgments(ts)
            + seq![t->Acknowledgments_0],
        !(t is Acknowledgments) ==> bin_acknowledgments(ts + seq![t]) == bin_acknowledgments(ts),
        t is Canonical ==> bin_canonical(ts + seq![t]) == bin_canonical(ts)
            + seq![t->Canonical_0],
        !(t is Canonical) ==> bin_canonical(ts + seq![t]) == bin_canonical(ts),
        t is Contact ==> bin_contact(ts + seq![t]) == bin_contact(ts) + seq![t->Contact_0],
        !(t is Contact) ==> bin_contact(ts + seq![t]) == bin_contact(ts),
        t is Csaf ==> bin_csaf(ts + seq![t]) == bin_csaf(ts) + seq![t->Csaf_0],
        !(t is Csaf) ==> bin_csaf(ts + seq![t]) == bin_csaf(ts),
        t is Encryption ==> bin_encryption(ts + seq![t]) == bin_encryption(ts)
            + seq![t->Encryption_0],
        !(t is Encryption) ==> bin_encryption(ts + seq![t]) == bin_encryption(ts),
        t is Expires ==> bin_expires(ts + seq![t]) == bin_expires(ts) + seq![t->Expires_0],
        !(t is Expires) ==> bin_expires(ts + seq![t]) == bin_expires(ts),
        t is Hiring ==> bin_hiring(ts + seq![t]) == bin_hiring(ts) + seq![t->Hiring_0],
        !(t is Hiring) ==> bin_hiring(ts + seq![t]) == bin_hiring(ts),
        t is Policy ==> bin_policy(ts + seq![t]) == bin_policy(ts) + seq![t->Policy_0],
        !(t is Policy) ==> bin_policy(ts + seq![t]) == bin_policy(ts),
        t is PreferredLanguages ==> bin_preferred_languages(ts + seq![t])
            == bin_preferred_languages(ts) + seq![t->PreferredLanguages_0],
        !(t is PreferredLanguages) ==> bin_preferred_languages(ts + seq![t])
            == bin_preferred_languages(ts),
        t is Extension ==> bin_extension(ts + seq![t]) == bin_extension(ts)
            + seq![t->Extension_0],
        !(t is Extension) ==> bin_extension(ts + seq![t]) == bin_extension(ts),
{
    let ts2 = ts + seq![t];
    assert(ts2.drop_last() =~= ts);
    assert(ts2.last() == t);
    if t is Acknowledgments {
        assert(bin_acknowledgments(ts2) =~= bin_acknowledgments(ts) + seq![t->Acknowledgments_0]);
    } else {
        assert(bin_acknowledgments(ts2) =~= bin_acknowledgments(ts));
    }
    if t is Canonical {
        assert(bin_canonical(ts2) =~= bin_canonical(ts) + seq![t->Canonical_0]);
    } else {
        assert(bin_canonical(ts2) =~= bin_canonical(ts));
    }
    if t is Contact {
        assert(bin_contact(ts2) =~= bin_contact(ts) + seq![t->Contact_0]);
    } else {
        assert(bin_contact(ts2) =~= bin_contact(ts));
    }
    if t is Csaf {
        assert(bin_csaf(ts2) =~= bin_csaf(ts) + seq![t->Csaf_0]);
    } else {
        assert(bin_csaf(ts2) =~= bin_csaf(ts));
    }
    if t is Encryption {
        assert(bin_encryption(ts2) =~= bin_encryption(ts) + seq![t->Encryption_0]);
    } else {
        assert(bin_encryption(ts2) =~= bin_encryption(ts));
    }
    if t is Expires {
        assert(bin_expires(ts2) =~= bin_expires(ts) + seq![t->Expires_0]);
    } else {
        assert(bin_expires(ts2) =~= bin_expires(ts));
    }
    if t is Hiring {
        assert(bin_hiring(ts2) =~= bin_hiring(ts) + seq![t->Hiring_0]);
    } else {
        assert(bin_hiring(ts2) =~= bin_hiring(ts));
    }
    if t is Policy {
        assert(bin_policy(ts2) =~= bin_policy(ts) + seq![t->Policy_0]);
    } else {
        assert(bin_policy(ts2) =~= bin_policy(ts));
    }
    if t is PreferredLanguages {
        assert(bin_preferred_languages(ts2) =~= bin_preferred_languages(ts)
            + seq![t->PreferredLanguages_0]);
    } else {
        assert(bin_preferred_languages(ts2) =~= bin_preferred_languages(ts));
    }
    if t is Extension {
        assert(bin_extension(ts2) =~= bin_extension(ts) + seq![t->Extension_0]);
    } else {
        assert(bin_extension(ts2) =~= bin_extension(ts));
    }
}

/// One step of typing: a field that types cleanly extends the accumulated
/// prefix.
pub proof fn lemma_typed_step(
    all: Seq<RawFieldView>,
    k: int,
    now: Timestamp,
    tsg: Seq<FieldView>,
    t: FieldView,
)
    requires
        0 <= k < all.len(),
        spec_typed_fields(all, now) == (match spec_typed_fields(all.skip(k), now) {
            Err(e) => Err::<Seq<FieldView>, ParseError>(e),
            Ok(r) => Ok(tsg + r),
        }),
        spec_typed_field(all[k], now) == Ok::<FieldView, ParseError>(t),
    ensures
        spec_typed_fields(all, now) == (match spec_typed_fields(all.skip(k + 1), now) {
            Err(e) => Err::<Seq<FieldView>, ParseError>(e),
            Ok(r) => Ok((tsg + seq![t]) + r),
        }),
{
    assert(all.skip(k)[0] == all[k]);
    assert(all.skip(k).drop_first() =~= all.skip(k + 1));
    assert(all.skip(k).len() == all.len() - k);
    match spec_typed_fields(all.skip(k + 1), now) {
        Ok(r) => {
            assert(spec_typed_fields(all.skip(k), now) == Ok::<Seq<FieldView>, ParseError>(
                seq![t] + r,
            ));
            assert(tsg + (seq![t] + r) =~= (tsg + seq![t]) + r);
        },
        Err(e) => {
            assert(spec_typed_fields(all.skip(k), now) == Err::<Seq<FieldView>, ParseError>(e));
        },
    }
}

/// One step of typing: a field that fails makes its error the document's.
pub proof fn lemma_typed_err(
    all: Seq<RawFieldView>,
    k: int,
    now: Timestamp,
    tsg: Seq<FieldView>,
    e: ParseError,
)
    requires
        0 <= k < all.len(),
        spec_typed_fields(all, now) == (match spec_typed_fields(all.skip(k), now) {
            Err(e2) => Err::<Seq<FieldView>, ParseError>(e2),
            Ok(r) => Ok(tsg + r),
        }),
        spec_typed_field(all[k], now) == Err::<FieldView, ParseError>(e),
    ensures
        spec_typed_fields(all, now) == Err::<Seq<FieldView>, ParseError>(e),
{
    assert(all.skip(k)[0] == all[k]);
    assert(all.skip(k).len() == all.len() - k);
    assert(spec_typed_fields(all.skip(k), now) == Err::<Seq<FieldView>, ParseError>(e));
}

/// The mathematical shadow of a parsed document.
pub struct SecurityTxtView {
    pub acknowledgments: Seq<IriFieldView>,
    pub canonical: Seq<IriFieldView>,
    pub contact: Seq<IriFieldView>,
    pub csaf: Seq<IriFieldView>,
    pub encryption: Seq<IriFieldView>,
    pub expires: Timestamp,
    pub extension: Seq<ExtFieldView>,
    pub hiring: Seq<IriFieldView>,
    pub policy: Seq<IriFieldView>,
    pub preferred_languages: Option<Seq<Seq<char>>>,
}

/// The cardinality rules over the typed fields, and the document they leave
/// behind: at least one Contact, exactly one Expires, at most one
/// Preferred-Languages.
pub open spec fn spec_document(ts: Seq<FieldView>) -> Result<SecurityTxtView, ParseError> {
    if bin_contact(ts).len() == 0 {
        Err(ParseError::ContactFieldMissing)
    } else if bin_expires(ts).len() == 0 {
        Err(ParseError::ExpiresFieldMissing)
    } else if bin_expires(ts).len() > 1 {
        Err(ParseError::ExpiresFieldMultiple)
    } else if bin_preferred_languages(ts).len() > 1 {
        Err(ParseError::PreferredLanguagesFieldMultiple)
    } else {
        Ok(
            SecurityTxtView {
                acknowledgments: bin_acknowledgments(ts),
                canonical: bin_canonical(ts),
                contact: bin_contact(ts),
                csaf: bin_csaf(ts),
                encryption: bin_encryption(ts),
                expires: bin_expires(ts).last(),
                extension: bin_extension(ts),
                hiring: bin_hiring(ts),
                policy: bin_policy(ts),
                preferred_languages: if bin_preferred_languages(ts).len() == 1 {
                    Some(bin_preferred_languages(ts).last())
                } else {
                    None
                },
            },
        )
    }
}

/// Typing and validation over a flattened raw field list.
pub open spec fn spec_new(fs: Seq<RawFieldView>, options: SecurityTxtOptions) -> Result<
    SecurityTxtView,
    ParseError,
> {
    match spec_typed_fields(fs, options.now) {
        Err(e) => Err(e),
        Ok(ts) => spec_document(ts),
    }
}

/// The unsigned pipeline over a text: grammar, flattening, typing,
/// validation.
pub open spec fn spec_process(text: Seq<char>, options: SecurityTxtOptions) -> Result<
    SecurityTxtView,
    ParseError,
> {
    match spec_body(text) {
        None => Err(ParseError::Malformed),
        Some(ls) => spec_new(flatten_opts(ls), options),
    }
}

/// What a parse returns: the unsigned pipeline over the text itself, or,
/// when the unsigned grammar fails, over the payload of a recognized PGP
/// envelope.
pub open spec fn spec_parse_with(text: Seq<char>, options: SecurityTxtOptions) -> Result<
    SecurityTxtView,
    ParseError,
> {
    match spec_body(text) {
        Some(ls) => spec_new(flatten_opts(ls), options),
        None => match signed_at(text, options.strict) {
            None => Err(ParseError::Malformed),
            Some(m) => spec_process(m.cleartext, options),
        },
    }
}

/// Whether an executable outcome agrees with a mathematical one.
pub open spec fn outcome_matches(
    r: Result<SecurityTxt, ParseError>,
    s: Result<SecurityTxtView, ParseError>,
) -> bool {
    match r {
        Ok(d) => s == Ok::<SecurityTxtView, ParseError>(d@),
        Err(e) => s == Err::<SecurityTxtView, ParseError>(e),
    }
}

/// A parsed and validated security.txt document.
#[derive(Debug, PartialEq)]
pub struct SecurityTxt {
    /// The "Acknowledgments" fields.
    pub acknowledgments: Vec<AcknowledgmentsField>,
    /// The "Canonical" fields.
    pub canonical: Vec<CanonicalField>,
    /// The "Contact" fields, in priority order.
    pub contact: Vec<ContactField>,
    /// The "CSAF" fields.
    pub csaf: Vec<CsafField>,
    /// The "Encryption" fields.
    pub encryption: Vec<EncryptionField>,
    /// The "Expires" field.
    pub expires: ExpiresField,
    /// The "Extension" fields.
    pub extension: Vec<ExtensionField>,
    /// The "Hiring" fields.
    pub hiring: Vec<HiringField>,
    /// The "Policy" fields.
    pub policy: Vec<PolicyField>,
    /// The "Preferred-Languages" field, when present.
    pub preferred_languages: Option<PreferredLanguagesField>,
}

impl View for SecurityTxt {
    type V = SecurityTxtView;

    open spec fn view(&self) -> SecurityTxtView {
        SecurityTxtView {
            acknowledgments: views_of(self.acknowledgments@),
            canonical: views_of(self.canonical@),
            contact: views_of(self.contact@),
            csaf: views_of(self.csaf@),
            encryption: views_of(self.encryption@),
            expires: self.expires@,
            extension: views_of(self.extension@),
            hiring: views_of(self.hiring@),
            policy: views_of(self.policy@),
            preferred_languages: match self.preferred_languages {
                Some(p) => Some(p@),
                None => None,
            },
        }
    }
}

/// Drops the comment and blank lines out of a parsed line list.
fn flatten(lines: &Vec<Option<RawField>>) -> (r: Vec<RawField>)
    ensures
        rf_views(r@) == flatten_opts(opt_rf_views(lines@)),
{
    let mut out: Vec<RawField> = Vec::new();
    let mut k: usize = 0;
    proof {
        assert(rf_views(out@) =~= Seq::<RawFieldView>::empty());
        assert(opt_rf_views(lines@).skip(0) =~= opt_rf_views(lines@));
        assert(Seq::<RawFieldView>::empty() + flatten_opts(opt_rf_views(lines@)) =~= flatten_opts(
            opt_rf_views(lines@),
        ));
    }
    #[verifier::loop_isolation(true)]
    while k < lines.len()
        invariant
            0 <= k <= lines@.len(),
            flatten_opts(opt_rf_views(lines@)) == rf_views(out@) + flatten_opts(
                opt_rf_views(lines@).skip(k as int),
            ),
        decreases lines@.len() - k,
    {
        proof {
            assert(opt_rf_views(lines@).skip(k as int).drop_first() =~= opt_rf_views(
                lines@,
            ).skip(k as int + 1));
            assert(opt_rf_views(lines@).skip(k as int)[0] == opt_rf_views(lines@)[k as int]);
        }
        match &lines[k] {
            Some(f) => {
                let ghost pre = rf_views(out@);
                let ghost fv = f@;
                out.push(RawField { name: f.name.clone(), value: f.value.clone() });
                proof {
                    assert(rf_views(out@) =~= pre + seq![fv]);
                    assert((pre + seq![fv]) + flatten_opts(
                        opt_rf_views(lines@).skip(k as int + 1),
                    ) =~= pre + (seq![fv] + flatten_opts(opt_rf_views(lines@).skip(k as int + 1))));
                }
            },
            None => {
                proof {
                    assert(rf_views(out@) + flatten_opts(opt_rf_views(lines@).skip(k as int + 1))
                        =~= rf_views(out@) + (Seq::<RawFieldView>::empty() + flatten_opts(
                        opt_rf_views(lines@).skip(k as int + 1),
                    )));
                }
            },
        }
        k = k + 1;
    }
    proof {
        assert(opt_rf_views(lines@).skip(lines@.len() as int) =~= Seq::<
            Option<RawFieldView>,
        >::empty());
        assert(rf_views(out@) + Seq::<RawFieldView>::empty() =~= rf_views(out@));
    }
    out
}

/// A typed field as executable data, one variant per field the document
/// model knows.
#[derive(Debug, PartialEq)]
pub enum Field {
    Acknowledgments(AcknowledgmentsField),
    Canonical(CanonicalField),
    Contact(ContactField),
    Csaf(CsafField),
    Encryption(EncryptionField),
    Expires(ExpiresField),
    Hiring(HiringField),
    Policy(PolicyField),
    PreferredLanguages(PreferredLanguagesField),
    Extension(ExtensionField),
}

impl View for Field {
    type V = FieldView;

    open spec fn view(&self) -> FieldView {
        match self {
            Field::Acknowledgments(x) => FieldView::Acknowledgments(x@),
            Field::Canonical(x) => FieldView::Canonical(x@),
            Field::Contact(x) => FieldView::Contact(x@),
            Field::Csaf(x) => FieldView::Csaf(x@),
            Field::Encryption(x) => FieldView::Encryption(x@),
            Field::Expires(x) => FieldView::Expires(x@),
            Field::Hiring(x) => FieldView::Hiring(x@),
            Field::Policy(x) => FieldView::Policy(x@),
            Field::PreferredLanguages(x) => FieldView::PreferredLanguages(x@),
            Field::Extension(x) => FieldView::Extension(x@),
        }
    }
}

/// Lowercases the name of one raw field and types its value.
#[verifier::rlimit(50)]
pub fn type_raw_field(f: &RawField, now: Timestamp) -> (r: Result<Field, ParseError>)
    ensures
        match r {
            Ok(t) => spec_typed_field(f@, now) == Ok::<FieldView, ParseError>(t@),
            Err(e) => spec_typed_field(f@, now) == Err::<FieldView, ParseError>(e),
        },
{
    let lname = lower_string(f.name.as_str());
    let value = &f.value;
    if lname == String::from_str("acknowledgments") {
        match AcknowledgmentsField::new(value.as_str()) {
            Ok(x) => Ok(Field::Acknowledgments(x)),
            Err(e) => Err(e),
        }
    } else if lname == String::from_str("canonical") {
        match CanonicalField::new(value.as_str()) {
            Ok(x) => Ok(Field::Canonical(x)),
            Err(e) => Err(e),
        }
    } else if lname == String::from_str("contact") {
        match ContactField::new(value.as_str()) {
            Ok(x) => Ok(Field::Contact(x)),
            Err(e) => Err(e),
        }
    } else if lname == String::from_str("csaf") {
        match CsafField::new(value.as_str()) {
            Ok(x) => Ok(Field::Csaf(x)),
            Err(e) => Err(e),
        }
    } else if lname == String::from_str("encryption") {
        match EncryptionField::new(value.as_str()) {
            Ok(x) => Ok(Field::Encryption(x)),
            Err(e) => Err(e),
        }
    } else if lname == String::from_str("expires") {
        match ExpiresField::new(value.as_str(), now) {
            Ok(x) => Ok(Field::Expires(x)),
            Err(e) => Err(e),
        }
    } else if lname == String::from_str("hiring") {
        match HiringField::new(value.as_str()) {
            Ok(x) => Ok(Field::Hiring(x)),
            Err(e) => Err(e),
        }
    } else if lname == String::from_str("policy") {
        match PolicyField::new(value.as_str()) {
            Ok(x) => Ok(Field::Policy(x)),
            Err(e) => Err(e),
        }
    } else if lname == String::from_str("preferred-languages") {
        match PreferredLanguagesField::new(value.as_str()) {
            Ok(x) => Ok(Field::PreferredLanguages(x)),
            Err(e) => Err(e),
        }
    } else {
        match ExtensionField::new(lname, value.clone()) {
            Ok(x) => Ok(Field::Extension(x)),
            Err(e) => Err(e),
        }
    }
}

impl SecurityTxt {
    /// Types every raw field in order, stopping at the first failure, and
    /// then applies the cardinality rules.
    #[verifier::rlimit(100)]
    pub fn new(fields: Vec<RawField>, options: &SecurityTxtOptions) -> (r: Result<
        SecurityTxt,
        ParseError,
    >)
        ensures
            match r {
                Ok(d) => spec_new(rf_views(fields@), *options) == Ok::<
                    SecurityTxtView,
                    ParseError,
                >(d@),
                Err(e) => spec_new(rf_views(fields@), *options) == Err::<
                    SecurityTxtView,
                    ParseError,
                >(e),
            },
    {
        let ghost all = rf_views(fields@);
        let mut acknowledgments: Vec<AcknowledgmentsField> = Vec::new();
        let mut canonical: Vec<CanonicalField> = Vec::new();
        let mut contact: Vec<ContactField> = Vec::new();
        let mut csaf: Vec<CsafField> = Vec::new();
        let mut encryption: Vec<EncryptionField> = Vec::new();
        let mut expires: Vec<ExpiresField> = Vec::new();
        let mut extension: Vec<ExtensionField> = Vec::new();
        let mut hiring: Vec<HiringField> = Vec::new();
        let mut policy: Vec<PolicyField> = Vec::new();
        let mut preferred_languages: Vec<PreferredLanguagesField> = Vec::new();
        let ghost mut tsg: Seq<FieldView> = Seq::empty();
        let mut k: usize = 0;
        proof {
            assert(views_of(acknowledgments@) =~= bin_acknowledgments(tsg));
            assert(views_of(canonical@) =~= bin_canonical(tsg));
            assert(views_of(contact@) =~= bin_contact(tsg));
            assert(views_of(csaf@) =~= bin_csaf(tsg));
            assert(views_of(encryption@) =~= bin_encryption(tsg));
            assert(views_of(expires@) =~= bin_expires(tsg));
            assert(views_of(extension@) =~= bin_extension(tsg));
            assert(views_of(hiring@) =~= bin_hiring(tsg));
            assert(views_of(policy@) =~= bin_policy(tsg));
            assert(views_of(preferred_languages@) =~= bin_preferred_languages(tsg));
        }
        proof {
            assert(all.skip(0) =~= all);
            match spec_typed_fields(all, options.now) {
                Ok(r0) => {
                    assert(Seq::<FieldView>::empty() + r0 =~= r0);
                },
                Err(_) => {},
            }
        }
        #[verifier::loop_isolation(true)]
        while k < fields.len()
            invariant
                0 <= k <= fields@.len(),
                all == rf_views(fields@),
                spec_typed_fields(all, options.now) == (match spec_typed_fields(
                    all.skip(k as int),
                    options.now,
                ) {
                    Err(e) => Err::<Seq<FieldView>, ParseError>(e),
                    Ok(r) => Ok(tsg + r),
                }),
                views_of(acknowledgments@) == bin_acknowledgments(tsg),
                views_of(canonical@) == bin_canonical(tsg),
                views_of(contact@) == bin_contact(tsg),
                views_of(csaf@) == bin_csaf(tsg),
                views_of(encryption@) == bin_encryption(tsg),
                views_of(expires@) == bin_expires(tsg),
                views_of(extension@) == bin_extension(tsg),
                views_of(hiring@) == bin_hiring(tsg),
                views_of(policy@) == bin_policy(tsg),
                views_of(preferred_languages@) == bin_preferred_languages(tsg),
            decreases fields@.len() - k,
        {
            proof {
                assert(all[k as int] == fields@[k as int]@);
            }
            let f = &fields[k];
            match type_raw_field(f, options.now) {
                Err(e) => {
                    proof {
                        lemma_typed_err(all, k as int, options.now, tsg, e);
                    }
                    return Err(e);
                },
                Ok(tf) => {
                    let ghost t = tf@;
                    proof {
                        lemma_typed_step(all, k as int, options.now, tsg, t);
                        lemma_bins_push(tsg, t);
                        tsg = tsg + seq![t];
                    }
                    match tf {
                        Field::Acknowledgments(x) => {
                            let ghost pre = views_of(acknowledgments@);
                            let ghost xv = x@;
                            acknowledgments.push(x);
                            proof {
                                assert(views_of(acknowledgments@) =~= pre + seq![xv]);
                            }
                        },
                        Field::Canonical(x) => {
                            let ghost pre = views_of(canonical@);
                            let ghost xv = x@;
                            canonical.push(x);
                            proof {
                                assert(views_of(canonical@) =~= pre + seq![xv]);
                            }
                        },
                        Field::Contact(x) => {
                            let ghost pre = views_of(contact@);
                            let ghost xv = x@;
                            contact.push(x);
                            proof {
                                assert(views_of(contact@) =~= pre + seq![xv]);
                            }
                        },
                        Field::Csaf(x) => {
                            let ghost pre = views_of(csaf@);
                            let ghost xv = x@;
                            csaf.push(x);
                            proof {
                                assert(views_of(csaf@) =~= pre + seq![xv]);
                            }
                        },
                        Field::Encryption(x) => {
                            let ghost pre = views_of(encryption@);
                            let ghost xv = x@;
                            encryption.push(x);
                            proof {
                                assert(views_of(encryption@) =~= pre + seq![xv]);
                            }
                        },
                        Field::Expires(x) => {
                            let ghost pre = views_of(expires@);
                            let ghost xv = x@;
                            expires.push(x);
                            proof {
                                assert(views_of(expires@) =~= pre + seq![xv]);
                            }
                        },
                        Field::Hiring(x) => {
                            let ghost pre = views_of(hiring@);
                            let ghost xv = x@;
                            hiring.push(x);
                            proof {
                                assert(views_of(hiring@) =~= pre + seq![xv]);
                            }
                        },
                        Field::Policy(x) => {
                            let ghost pre = views_of(policy@);
                            let ghost xv = x@;
                            policy.push(x);
                            proof {
                                assert(views_of(policy@) =~= pre + seq![xv]);
                            }
                        },
                        Field::PreferredLanguages(x) => {
                            let ghost pre = views_of(preferred_languages@);
                            let ghost xv = x@;
                            preferred_languages.push(x);
                            proof {
                                assert(views_of(preferred_languages@) =~= pre + seq![xv]);
                            }
                        },
                        Field::Extension(x) => {
                            let ghost pre = views_of(extension@);
                            let ghost xv = x@;
                            extension.push(x);
                            proof {
                                assert(views_of(extension@) =~= pre + seq![xv]);
                            }
                        },
                    }
                },
            }
            k = k + 1;
        }
        proof {
            assert(all.skip(fields@.len() as int) =~= Seq::<RawFieldView>::empty());
            assert(spec_typed_fields(Seq::<RawFieldView>::empty(), options.now) == Ok::<
                Seq<FieldView>,
                ParseError,
            >(Seq::empty()));
            assert(tsg + Seq::<FieldView>::empty() =~= tsg);
            assert(spec_typed_fields(all, options.now) == Ok::<Seq<FieldView>, ParseError>(tsg));
        }
        if contact.len() == 0 {
            return Err(ParseError::ContactFieldMissing);
        }
        if expires.len() == 0 {
            return Err(ParseError::ExpiresFieldMissing);
        }
        if expires.len() > 1 {
            return Err(ParseError::ExpiresFieldMultiple);
        }
        if preferred_languages.len() > 1 {
            return Err(ParseError::PreferredLanguagesFieldMultiple);
        }
        let expires_field = match expires.pop() {
            Some(x) => x,
            None => {
                return Err(ParseError::ExpiresFieldMissing);
            },
        };
        let preferred = preferred_languages.pop();
        Ok(
            SecurityTxt {
                acknowledgments,
                canonical,
                contact,
                csaf,
                encryption,
                expires: expires_field,
                extension,
                hiring,
                policy,
                preferred_languages: preferred,
            },
        )
    }

    /// Parses a security.txt file against the wall clock with strict PGP
    /// line endings.
    pub fn parse(text: &str) -> (r: Result<SecurityTxt, ParseError>)
        ensures
            exists|now: Timestamp|
                outcome_matches(
                    r,
                    spec_parse_with(text@, SecurityTxtOptions { now, strict: true }),
                ),
    {
        let options = SecurityTxtOptions::new(true);
        let r = Self::parse_with(text, &options);
        proof {
            assert(options == (SecurityTxtOptions { now: options.now, strict: true }));
            assert(outcome_matches(
                r,
                spec_parse_with(text@, SecurityTxtOptions { now: options.now, strict: true }),
            ));
        }
        r
    }

    /// Parses a security.txt file under the given options.
    pub fn parse_with(text: &str, options: &SecurityTxtOptions) -> (r: Result<
        SecurityTxt,
        ParseError,
    >)
        ensures
            outcome_matches(r, spec_parse_with(text@, *options)),
    {
        let v = chars_vec(text);
        match body_parser(&v) {
            Some(lines) => {
                let fields = flatten(&lines);
                Self::new(fields, options)
            },
            None => {
                let signed_parser = PGPCleartextMessageParser::new(options);
                match signed_parser.parse(text) {
                    Err(e) => Err(e),
                    Ok(msg) => {
                        let cv = chars_vec(msg.cleartext.as_str());
                        match body_parser(&cv) {
                            None => Err(ParseError::Malformed),
                            Some(lines) => {
                                let fields = flatten(&lines);
                                Self::new(fields, options)
                            },
                        }
                    },
                }
            },
        }
    }

    /// The Contact fields, most preferred first.
    pub fn get_contacts(&self) -> (r: &Vec<ContactField>)
        ensures
            r@ == self.contact@,
    {
        &self.contact
    }
}

impl core::str::FromStr for SecurityTxt {
    type Err = ParseError;

    fn from_str(text: &str) -> Result<Self, ParseError> {
        Self::parse(text)
    }
}

} // verus!
