use chrono::{DateTime, Datelike, Duration, SecondsFormat, TimeZone, Utc};
use sectxtlib::fields::{
    AcknowledgmentsField, ContactField, CsafField, ExpiresField, PreferredLanguagesField,
};
use sectxtlib::parse_error::ParseError;
use sectxtlib::securitytxt::SecurityTxt;
use sectxtlib::securitytxt_options::{SecurityTxtOptions, Timestamp};

const URL: &str = "https://securitytxt.org/";
const INSECURE_URL: &str = "http://securitytxt.org/";

fn some_datetime() -> Timestamp {
    let dt = DateTime::parse_from_rfc3339("2023-01-01T08:19:03.000Z").unwrap();
    Timestamp {
        secs: dt.timestamp(),
        nanos: dt.timestamp_subsec_nanos(),
    }
}

fn future_expires_str() -> String {
    (Utc::now() + Duration::days(365)).to_rfc3339_opts(SecondsFormat::Millis, true)
}

fn expires_dt(expires: &str) -> ExpiresField {
    ExpiresField::new(expires, some_datetime()).unwrap()
}

fn get_parse_options() -> SecurityTxtOptions {
    SecurityTxtOptions {
        now: some_datetime(),
        strict: true,
    }
}

#[test]
fn test_contact_and_expires() {
    let expires = future_expires_str();
    let file = format!("Contact: {URL}\nExpires: {expires}\n");
    let sec = SecurityTxt {
        acknowledgments: vec![],
        canonical: vec![],
        contact: vec![ContactField::new(URL).unwrap()],
        csaf: vec![],
        encryption: vec![],
        expires: expires_dt(&expires),
        extension: vec![],
        hiring: vec![],
        policy: vec![],
        preferred_languages: None,
    };

    assert_eq!(file.parse(), Ok(sec));
}

#[test]
fn lib_test_comment() {
    let expires = future_expires_str();
    let file = format!("# this is a comment\n#\nContact: {URL}\nExpires: {expires}\n#\n");
    let sec = SecurityTxt {
        acknowledgments: vec![],
        canonical: vec![],
        contact: vec![ContactField::new(URL).unwrap()],
        csaf: vec![],
        encryption: vec![],
        expires: expires_dt(&expires),
        extension: vec![],
        hiring: vec![],
        policy: vec![],
        preferred_languages: None,
    };

    assert_eq!(file.parse(), Ok(sec));
}

#[test]
fn lib_test_newlines() {
    let expires = future_expires_str();
    let file = format!("\n\n\nContact: {URL}\n\n\nExpires: {expires}\n\n\n");
    let sec = SecurityTxt {
        acknowledgments: vec![],
        canonical: vec![],
        contact: vec![ContactField::new(URL).unwrap()],
        csaf: vec![],
        encryption: vec![],
        expires: expires_dt(&expires),
        extension: vec![],
        hiring: vec![],
        policy: vec![],
        preferred_languages: None,
    };

    assert_eq!(file.parse(), Ok(sec));
}

#[test]
fn lib_test_acknowledgements() {
    let expires = future_expires_str();
    let file = format!("Contact: {URL}\nExpires: {expires}\nAcknowledgments: {URL}\n");
    let sec = SecurityTxt {
        acknowledgments: vec![AcknowledgmentsField::new(URL).unwrap()],
        canonical: vec![],
        contact: vec![ContactField::new(URL).unwrap()],
        csaf: vec![],
        encryption: vec![],
        expires: expires_dt(&expires),
        extension: vec![],
        hiring: vec![],
        policy: vec![],
        preferred_languages: None,
    };

    assert_eq!(file.parse(), Ok(sec));
}

#[test]
fn test_csaf() {
    let expires = future_expires_str();
    let file = format!("Contact: {URL}\nExpires: {expires}\nCSAF: {URL}\n");
    let sec = SecurityTxt {
        acknowledgments: vec![],
        canonical: vec![],
        contact: vec![ContactField::new(URL).unwrap()],
        csaf: vec![CsafField::new(URL).unwrap()],
        encryption: vec![],
        expires: expires_dt(&expires),
        extension: vec![],
        hiring: vec![],
        policy: vec![],
        preferred_languages: None,
    };

    assert_eq!(file.parse(), Ok(sec));
}

#[test]
fn test_contact_missing() {
    let expires = future_expires_str();
    let file = format!("Expires: {expires}\n");

    assert_eq!(file.parse::<SecurityTxt>(), Err(ParseError::ContactFieldMissing));
}

#[test]
fn test_expires_missing() {
    let file = format!("Contact: {URL}\n");

    assert_eq!(file.parse::<SecurityTxt>(), Err(ParseError::ExpiresFieldMissing));
}

#[test]
fn lib_test_trailing_content() {
    let expires = future_expires_str();
    let file = format!("Contact: {URL}\nExpires: {expires}\nfoo");

    assert_eq!(file.parse::<SecurityTxt>(), Err(ParseError::Malformed));
}

#[test]
fn lib_test_preferred_languages() {
    let expires = future_expires_str();
    let file = format!("Contact: {URL}\nExpires: {expires}\nPreferred-Languages: en, fr\n");
    let sec = SecurityTxt {
        acknowledgments: vec![],
        canonical: vec![],
        contact: vec![ContactField::new(URL).unwrap()],
        csaf: vec![],
        encryption: vec![],
        expires: expires_dt(&expires),
        extension: vec![],
        hiring: vec![],
        policy: vec![],
        preferred_languages: Some(PreferredLanguagesField::new("en, fr").unwrap()),
    };

    assert_eq!(file.parse::<SecurityTxt>(), Ok(sec));
}

#[test]
fn test_preferred_languages_multiple() {
    let expires = future_expires_str();
    let file =
        format!("Contact: {URL}\nExpires: {expires}\nPreferred-Languages: en\nPreferred-Languages: de\n");

    assert_eq!(
        file.parse::<SecurityTxt>(),
        Err(ParseError::PreferredLanguagesFieldMultiple)
    );
}

#[test]
fn test_expires_multiple() {
    let expires = future_expires_str();
    let file = format!("Contact: {URL}\nExpires: {expires}\nExpires: {expires}\n");

    assert_eq!(file.parse::<SecurityTxt>(), Err(ParseError::ExpiresFieldMultiple));
}

#[test]
fn test_insecure_http() {
    let expires = future_expires_str();
    let file = format!("Contact: {INSECURE_URL}\nExpires: {expires}\n");

    assert_eq!(file.parse::<SecurityTxt>(), Err(ParseError::InsecureHTTP));
}

#[test]
fn lib_test_signed_contact() {
    let expires = future_expires_str();
    let file = format!(
        "-----BEGIN PGP SIGNED MESSAGE-----\r
Hash: SHA256\r
\r
Contact: {URL}
Contact: {URL}\r
Expires: {expires}\r
-----BEGIN PGP SIGNATURE-----\r
Version: GnuPG v2.2\r
\r
abcdefABCDEF/+==\r
-----END PGP SIGNATURE-----\r
"
    );
    let sec = SecurityTxt {
        acknowledgments: vec![],
        canonical: vec![],
        contact: vec![ContactField::new(URL).unwrap(), ContactField::new(URL).unwrap()],
        csaf: vec![],
        encryption: vec![],
        expires: expires_dt(&expires),
        extension: vec![],
        hiring: vec![],
        policy: vec![],
        preferred_languages: None,
    };

    assert_eq!(file.parse(), Ok(sec));
}

#[test]
fn test_expires_non_z_time() {
    let next_year = Utc::now().year() + 1;
    let test_times = [
        (
            format!("{next_year}-08-30T00:00:00+00:00"),
            Utc.with_ymd_and_hms(next_year, 8, 30, 0, 0, 0),
        ),
        (
            format!("{next_year}-08-30T12:34:56+00:00"),
            Utc.with_ymd_and_hms(next_year, 8, 30, 12, 34, 56),
        ),
        (
            format!("{next_year}-08-30T02:00:00+02:00"),
            Utc.with_ymd_and_hms(next_year, 8, 30, 0, 0, 0),
        ),
        (
            format!("{next_year}-08-30T02:00:00-02:00"),
            Utc.with_ymd_and_hms(next_year, 8, 30, 4, 0, 0),
        ),
    ];

    for (expires_str, expected_dt) in &test_times {
        let file = format!("Contact: {URL}\nExpires: {expires_str}\n");
        let sec = SecurityTxt {
            acknowledgments: vec![],
            canonical: vec![],
            contact: vec![ContactField::new(URL).unwrap()],
            csaf: vec![],
            encryption: vec![],
            expires: ExpiresField::new(expires_str, some_datetime()).unwrap(),
            extension: vec![],
            hiring: vec![],
            policy: vec![],
            preferred_languages: None,
        };

        let parsed: SecurityTxt = file.parse().unwrap();
        assert_eq!(parsed, sec);
        let expected_dt = expected_dt.single().unwrap();
        assert_eq!(parsed.expires.datetime.secs, expected_dt.timestamp());
        assert_eq!(
            parsed.expires.datetime.nanos / 1_000_000,
            expected_dt.timestamp_subsec_millis()
        );
    }
}

#[test]
fn test_fixed_now_happy_path() {
    let file = format!("Contact: {URL}\nExpires: 2030-01-01T08:19:03.000Z\n");
    let options = get_parse_options();
    let parsed = SecurityTxt::parse_with(&file, &options).unwrap();
    assert_eq!(parsed.contact.len(), 1);
    assert_eq!(parsed.contact[0].uri, URL);
    assert_eq!(parsed.contact[0].scheme, "https");
    assert_eq!(
        parsed.expires,
        ExpiresField::new("2030-01-01T08:19:03.000Z", some_datetime()).unwrap()
    );
    assert_eq!(parsed.acknowledgments, vec![]);
    assert_eq!(parsed.extension, vec![]);
    assert_eq!(parsed.preferred_languages, None);
}

#[test]
fn test_expires_equals_now() {
    let file = format!("Contact: {URL}\nExpires: 2023-01-01T08:19:03.000Z\n");
    let options = get_parse_options();
    let parsed = SecurityTxt::parse_with(&file, &options).unwrap();
    assert_eq!(parsed.expires.datetime, some_datetime());
}

#[test]
fn test_expires_expired() {
    let file = format!("Contact: {URL}\nExpires: 2022-12-31T23:59:59.000Z\n");
    let options = get_parse_options();
    assert_eq!(
        SecurityTxt::parse_with(&file, &options),
        Err(ParseError::ExpiresFieldExpired)
    );
}

#[test]
fn test_insecure_http_with_other_fields() {
    let expires = future_expires_str();
    let file = format!("Contact: {URL}\nContact: {INSECURE_URL}\nExpires: {expires}\n");
    assert_eq!(file.parse::<SecurityTxt>(), Err(ParseError::InsecureHTTP));
}

#[test]
fn test_extension_field() {
    let expires = future_expires_str();
    let file = format!("Contact: {URL}\nExpires: {expires}\nX-Custom: some value here\n");
    let parsed: SecurityTxt = file.parse().unwrap();
    assert_eq!(parsed.extension.len(), 1);
    assert_eq!(parsed.extension[0].name, "x-custom");
    assert_eq!(parsed.extension[0].value, "some value here");
}

#[test]
fn test_value_trimmed() {
    let expires = future_expires_str();
    let file = format!("Contact:  {URL} \nExpires: {expires}\n");
    let parsed: SecurityTxt = file.parse().unwrap();
    assert_eq!(parsed.contact.len(), 1);
    assert_eq!(parsed.contact[0].uri, URL);
}

#[test]
fn test_scheme_extraction() {
    let field = ContactField::new("mailto:security@example.com").unwrap();
    assert_eq!(field.scheme, "mailto");
    assert_eq!(field.uri, "mailto:security@example.com");
    let field = ContactField::new(URL).unwrap();
    assert_eq!(field.scheme, "https");
}

#[test]
fn test_language_tag_normalization() {
    let field = PreferredLanguagesField::new("en-us, zh-hant").unwrap();
    assert_eq!(field.languages, vec!["en-US".to_string(), "zh-Hant".to_string()]);
}

#[test]
fn test_language_tag_invalid() {
    let expires = future_expires_str();
    let file = format!("Contact: {URL}\nExpires: {expires}\nPreferred-Languages: not a tag!\n");
    assert_eq!(file.parse::<SecurityTxt>(), Err(ParseError::Malformed));
}

#[test]
fn test_signed_bare_dash() {
    let expires = future_expires_str();
    let file = format!(
        "-----BEGIN PGP SIGNED MESSAGE-----\r
Hash: SHA256\r
\r
Contact: {URL}\r
-foo\r
Expires: {expires}\r
-----BEGIN PGP SIGNATURE-----\r
\r
abcdefABCDEF/+==\r
-----END PGP SIGNATURE-----\r
"
    );
    assert_eq!(file.parse::<SecurityTxt>(), Err(ParseError::Malformed));
}

#[test]
fn test_signed_dash_escape() {
    let expires = future_expires_str();
    let file = format!(
        "-----BEGIN PGP SIGNED MESSAGE-----\r
Hash: SHA256\r
\r
Contact: {URL}\r
- -foo: bar\r
Expires: {expires}\r
-----BEGIN PGP SIGNATURE-----\r
\r
abcdefABCDEF/+==\r
-----END PGP SIGNATURE-----\r
"
    );
    let parsed: SecurityTxt = file.parse().unwrap();
    assert_eq!(parsed.extension.len(), 1);
    assert_eq!(parsed.extension[0].name, "-foo");
    assert_eq!(parsed.extension[0].value, "bar");
}

#[test]
fn test_get_contacts() {
    let expires = future_expires_str();
    let file = format!("Contact: {URL}\nExpires: {expires}\n");
    let parsed: SecurityTxt = file.parse().unwrap();
    assert_eq!(parsed.get_contacts(), &vec![ContactField::new(URL).unwrap()]);
}

#[test]
fn test_error_messages() {
    assert_eq!(ParseError::Malformed.message(), "invalid syntax");
    assert_eq!(
        ParseError::ContactFieldMissing.message(),
        "contact field must be specified"
    );
    assert_eq!(ParseError::InsecureHTTP.message(), "links must use HTTPS");
}

#[test]
fn test_parse_with_pure() {
    let file = format!("Contact: {URL}\nExpires: 2030-01-01T08:19:03.000Z\n");
    let options = get_parse_options();
    let first = SecurityTxt::parse_with(&file, &options);
    let second = SecurityTxt::parse_with(&file, &options);
    assert_eq!(first, second);
}

#[test]
fn test_signed_relaxed_line_endings() {
    let file = format!(
        "-----BEGIN PGP SIGNED MESSAGE-----\nHash: SHA256\n\nContact: {URL}\nExpires: 2030-01-01T08:19:03.000Z\n-----BEGIN PGP SIGNATURE-----\n\nabcdefABCDEF/+==\n-----END PGP SIGNATURE-----\n"
    );
    let strict = get_parse_options();
    let relaxed = SecurityTxtOptions {
        now: some_datetime(),
        strict: false,
    };
    assert_eq!(
        SecurityTxt::parse_with(&file, &strict),
        Err(ParseError::Malformed)
    );
    let parsed = SecurityTxt::parse_with(&file, &relaxed).unwrap();
    assert_eq!(parsed.contact.len(), 1);
}

#[test]
fn test_signed_round_trip() {
    let payload = format!("Contact: {URL}\r\nExpires: 2030-01-01T08:19:03.000Z\r\n");
    let file = format!(
        "-----BEGIN PGP SIGNED MESSAGE-----\r
Hash: SHA256\r
\r
{payload}-----BEGIN PGP SIGNATURE-----\r
\r
abcdefABCDEF/+==\r
-----END PGP SIGNATURE-----\r
"
    );
    let options = get_parse_options();
    let signed = SecurityTxt::parse_with(&file, &options);
    let direct = SecurityTxt::parse_with(&payload, &options);
    assert!(signed.is_ok());
    assert_eq!(signed, direct);
}
