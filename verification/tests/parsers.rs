use sectxtlib::pgpcleartextmessage::{PGPCleartextMessage, PGPCleartextMessageParser, PGPSignature};
use sectxtlib::parsers::line_parser;
use sectxtlib::raw_field::RawField;
use sectxtlib::SecurityTxtOptions;

fn chars(s: &str) -> Vec<char> {
    s.chars().collect()
}

fn default_parser() -> PGPCleartextMessageParser {
    PGPCleartextMessageParser::new(&Default::default())
}

const SIGNATURE_DATA: &str = "iHUEARYKAB0WIQSsP2kEdoKDVFpSg6u3rK+YCkjapwUCY9qRaQAKCRC3rK+YCkja\r
pwALAP9LEHSYMDW4h8QRHg4MwCzUdnbjBLIvpq4QTo3dIqCUPwEA31MsEf95OKCh\r
MTHYHajOzjwpwlQVrjkK419igx4imgk=\r
=KONn\r
";

#[test]
fn test_line_parser() {
    let test_vector: Vec<(&str, Option<RawField>)> = vec![
        ("\n", None),
        ("\t \r\n", None),
        ("# This is a comment.\n", None),
        (
            "foo: bar\r\n",
            Some(RawField {
                name: "foo".to_string(),
                value: "bar".to_string(),
            }),
        ),
    ];

    for (input, result) in test_vector {
        let v = chars(input);
        assert_eq!(line_parser(&v, 0), Some((v.len(), result)));
    }
}

#[test]
fn test_parse() {
    let signed_parser = default_parser();
    let txt = format!(
        "-----BEGIN PGP SIGNED MESSAGE-----\r
Hash: SHA512\r
\r
Test\r
- Test\r
-----BEGIN PGP SIGNATURE-----\r
\r
{SIGNATURE_DATA}-----END PGP SIGNATURE-----\r
"
    );
    let msg = PGPCleartextMessage {
        hash_armor_headers: vec![vec!["SHA512".to_string()]],
        cleartext: "Test\r\nTest\r\n".into(),
        signature: PGPSignature {
            signature: SIGNATURE_DATA.to_string(),
            keys: vec![],
        },
    };
    assert_eq!(signed_parser.parse(&txt), Ok(msg));
}

#[test]
fn test_hash_header_parser() {
    let signed_parser = default_parser();
    let test_vector = vec![
        ("Hash: SHA512\r\n", vec!["SHA512".to_string()]),
        ("Hash: SHA256,SHA512\r\n", vec!["SHA256".to_string(), "SHA512".to_string()]),
    ];

    for (input, result) in test_vector {
        let v = chars(input);
        assert_eq!(signed_parser.hash_header_parser(&v, 0), Some((v.len(), result)));
    }
}

#[test]
fn test_token_parser() {
    let signed_parser = default_parser();
    let test_vector = vec![("SHA512\r\n", "SHA512".to_string(), 2)];

    for (input, result, leftover) in test_vector {
        let v = chars(input);
        assert_eq!(
            signed_parser.token_parser(&v, 0),
            Some((v.len() - leftover, result))
        );
    }
}

#[test]
fn test_line_dash_parser() {
    let signed_parser = default_parser();
    let test_vector = vec![("- -test\r\n", "-test\r\n".to_string())];

    for (input, result) in test_vector {
        let v = chars(input);
        assert_eq!(signed_parser.line_dash_parser(&v, 0), Some((v.len(), result)));
    }
}

#[test]
fn test_line_nodash_parser() {
    let signed_parser = default_parser();
    let test_vector = vec![("test\r\n", "test\r\n".to_string())];

    for (input, result) in test_vector {
        let v = chars(input);
        assert_eq!(signed_parser.line_nodash_parser(&v, 0), Some((v.len(), result)));
    }
}

#[test]
fn test_signature_parser() {
    let signed_parser = default_parser();
    let input = format!(
        "-----BEGIN PGP SIGNATURE-----\r
\r
{SIGNATURE_DATA}-----END PGP SIGNATURE-----\r
"
    );
    let signature = PGPSignature {
        signature: SIGNATURE_DATA.to_string(),
        keys: vec![],
    };

    let v = chars(&input);
    assert_eq!(signed_parser.signature_parser(&v, 0), Some((v.len(), signature)));
}

#[test]
fn test_armor_header_parser() {
    let signed_parser = default_parser();
    let input = "-----BEGIN PGP SIGNATURE-----\r\n";
    let v = chars(input);
    assert_eq!(signed_parser.armor_header_parser(&v, 0), Some(v.len()));
}

#[test]
fn test_armor_tail_parser() {
    let signed_parser = default_parser();
    let input = "-----END PGP SIGNATURE-----\r\n";
    let v = chars(input);
    assert_eq!(signed_parser.armor_tail_parser(&v, 0), Some(v.len()));
}

#[test]
fn test_armor_keys_parser() {
    let signed_parser = default_parser();
    let test_vector: Vec<(&str, Vec<(String, String)>)> = vec![
        ("", vec![]),
        ("test: \r\n", vec![("test".to_string(), "".to_string())]),
        ("test: test\r\n", vec![("test".to_string(), "test".to_string())]),
    ];

    for (input, result) in test_vector {
        let v = chars(input);
        assert_eq!(signed_parser.armor_keys_parser(&v, 0), (v.len(), result));
    }
}

#[test]
fn test_signature_data_parser() {
    let signed_parser = default_parser();
    let test_vector = vec![
        "iHUEARYKAB0WIQSsP2kEdoKDVFpSg6u3rK+YCkjapwUCY9qRaQAKCRC3rK+YCkja\r\npwALAP9LEHSYMDW4h8QRHg4MwCzUdnbjBLIvpq4QTo3dIqCUPwEA31MsEf95OKCh\r\nMTHYHajOzjwpwlQVrjkK419igx4imgk\r\n=KONn\r\n",
    ];

    for input in test_vector {
        let v = chars(input);
        assert_eq!(
            signed_parser.signature_data_parser(&v, 0),
            Some((v.len(), input.to_string()))
        );
    }
}
