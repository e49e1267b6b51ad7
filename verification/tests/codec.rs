//! Base64 and PEM codec behaviour, cross-checked against independent
//! implementations.

use base64::Engine;
use tokio_rustls_acme::b64::{b64_decode_padded, b64_encode_nopad, b64_encode_padded};
use tokio_rustls_acme::pem::{pem_encode_block, pem_encode_bundle, pem_parse, PemBlock};
use tokio_rustls_acme::state::parse_cert;

#[test]
fn b64_standard_known_vectors() {
    assert_eq!(b64_encode_padded(b""), b"".to_vec());
    assert_eq!(b64_encode_padded(b"f"), b"Zg==".to_vec());
    assert_eq!(b64_encode_padded(b"fo"), b"Zm8=".to_vec());
    assert_eq!(b64_encode_padded(b"foo"), b"Zm9v".to_vec());
    assert_eq!(b64_encode_padded(b"foob"), b"Zm9vYg==".to_vec());
    assert_eq!(b64_encode_padded(b"fooba"), b"Zm9vYmE=".to_vec());
    assert_eq!(b64_encode_padded(b"foobar"), b"Zm9vYmFy".to_vec());
    assert_eq!(b64_encode_padded(b"hello"), b"aGVsbG8=".to_vec());
}

#[test]
fn b64_matches_reference_crate() {
    let samples: Vec<Vec<u8>> = vec![
        vec![],
        vec![0],
        vec![255],
        vec![0, 1, 2, 3, 4, 5, 6, 7, 8, 9, 250, 251, 252, 253, 254, 255],
        (0u16..=255).map(|b| b as u8).collect(),
    ];
    for s in &samples {
        let std_ref = base64::engine::general_purpose::STANDARD.encode(s);
        assert_eq!(b64_encode_padded(s), std_ref.as_bytes().to_vec());
        let url_ref = base64::engine::general_purpose::URL_SAFE_NO_PAD.encode(s);
        assert_eq!(b64_encode_nopad(true, s), url_ref.as_bytes().to_vec());
    }
}

#[test]
fn b64_decode_inverts_encode() {
    let samples: Vec<Vec<u8>> = vec![
        vec![],
        vec![42],
        vec![1, 2],
        vec![1, 2, 3],
        vec![1, 2, 3, 4],
        (0u16..=255).map(|b| b as u8).collect(),
    ];
    for s in &samples {
        let enc = b64_encode_padded(s);
        assert_eq!(b64_decode_padded(&enc), Some(s.clone()));
    }
}

#[test]
fn b64_decode_rejects_malformed() {
    assert_eq!(b64_decode_padded(b"A"), None);
    assert_eq!(b64_decode_padded(b"AAA"), None);
    assert_eq!(b64_decode_padded(b"A!=="), None);
    // non-zero trailing bits
    assert_eq!(b64_decode_padded(b"Zh=="), None);
}

#[test]
fn pem_block_matches_reference_crate() {
    let der: Vec<u8> = (0u16..100).map(|b| b as u8).collect();
    let ours = pem_encode_block(b"CERTIFICATE", &der);
    let p = pem::Pem::new("CERTIFICATE", der.clone());
    let theirs = pem::encode_config(
        &p,
        pem::EncodeConfig::new().set_line_ending(pem::LineEnding::LF),
    );
    assert_eq!(String::from_utf8(ours).unwrap(), theirs);
}

#[test]
fn pem_parse_reads_reference_output() {
    let der: Vec<u8> = vec![48, 130, 1, 10, 2, 130];
    let p = pem::Pem::new("PRIVATE KEY", der.clone());
    let text = pem::encode_config(
        &p,
        pem::EncodeConfig::new().set_line_ending(pem::LineEnding::CRLF),
    );
    let blocks = pem_parse(text.as_bytes()).unwrap();
    assert_eq!(blocks.len(), 1);
    assert_eq!(blocks[0].tag, b"PRIVATE KEY".to_vec());
    assert_eq!(blocks[0].der, der);
}

#[test]
fn pem_bundle_round_trip() {
    let blocks = vec![
        PemBlock {
            tag: b"PRIVATE KEY".to_vec(),
            der: (0u16..=255).map(|b| b as u8).collect(),
        },
        PemBlock {
            tag: b"CERTIFICATE".to_vec(),
            der: vec![1, 2, 3],
        },
        PemBlock {
            tag: b"CERTIFICATE".to_vec(),
            der: vec![],
        },
    ];
    let text = pem_encode_bundle(&blocks);
    let parsed = pem_parse(&text).unwrap();
    assert_eq!(parsed.len(), 3);
    for (a, b) in blocks.iter().zip(parsed.iter()) {
        assert_eq!(a.tag, b.tag);
        assert_eq!(a.der, b.der);
    }
    // the reference parser reads the same bundle
    let theirs = pem::parse_many(&text).unwrap();
    assert_eq!(theirs.len(), 3);
    assert_eq!(theirs[0].tag(), "PRIVATE KEY");
    assert_eq!(theirs[0].contents(), &blocks[0].der[..]);
}

#[test]
fn pem_parse_ignores_junk_between_blocks() {
    let mut text = b"garbage line\n".to_vec();
    text.extend_from_slice(&pem_encode_block(b"CERTIFICATE", &vec![9, 9, 9]));
    text.extend_from_slice(b"\nmore garbage");
    let blocks = pem_parse(&text).unwrap();
    assert_eq!(blocks.len(), 1);
    assert_eq!(blocks[0].der, vec![9, 9, 9]);
}

#[test]
fn pem_parse_rejects_unterminated_block() {
    let text = b"-----BEGIN CERTIFICATE-----\nAAAA\n".to_vec();
    assert!(pem_parse(&text).is_none());
}

fn test_bundle() -> (Vec<u8>, i64, i64) {
    let key = rcgen::KeyPair::generate_for(&rcgen::PKCS_ECDSA_P256_SHA256).unwrap();
    let mut params = rcgen::CertificateParams::new(vec!["example.test".to_string()]).unwrap();
    params.not_before = rcgen::date_time_ymd(2000, 1, 1);
    params.not_after = rcgen::date_time_ymd(3000, 1, 1);
    let cert = params.self_signed(&key).unwrap();
    let text = [key.serialize_pem(), "\n".to_string(), cert.pem()].concat();
    (text.into_bytes(), 946684800, 32503680000)
}

#[test]
fn parse_cert_accepts_real_bundle_with_validity() {
    let (bundle, nb, na) = test_bundle();
    let parsed = pem_parse(&bundle).unwrap();
    assert!(parsed.len() >= 2);
    assert_eq!(parsed[0].tag, b"PRIVATE KEY".to_vec());
    let deployed = match parse_cert(&bundle) {
        Ok(d) => d,
        Err(_) => panic!("bundle did not parse"),
    };
    assert_eq!(deployed.not_before, nb);
    assert_eq!(deployed.not_after, na);
}

#[test]
fn parse_cert_rejects_too_few_blocks() {
    let one_block = pem_encode_block(b"PRIVATE KEY", &vec![1, 2, 3]);
    let r = parse_cert(&one_block);
    assert!(matches!(
        r,
        Err(tokio_rustls_acme::state::CertParseError::TooFewPem(1))
    ));
}

#[test]
fn parse_cert_rejects_non_pem() {
    let r = parse_cert(&b"-----BEGIN X-----\n!!!!\n-----END X-----\n".to_vec());
    assert!(matches!(
        r,
        Err(tokio_rustls_acme::state::CertParseError::Pem)
    ));
}

#[test]
fn parse_cert_rejects_bad_key() {
    let mut bundle = pem_encode_block(b"PRIVATE KEY", &vec![1, 2, 3]);
    bundle.extend_from_slice(&pem_encode_block(b"CERTIFICATE", &vec![4, 5, 6]));
    let r = parse_cert(&bundle);
    assert!(matches!(
        r,
        Err(tokio_rustls_acme::state::CertParseError::InvalidPrivateKey)
    ));
}

#[test]
fn parse_cert_rejects_bad_leaf_certificate() {
    let key = rcgen::KeyPair::generate_for(&rcgen::PKCS_ECDSA_P256_SHA256).unwrap();
    let mut bundle = pem_encode_block(b"PRIVATE KEY", &key.serialize_der());
    bundle.extend_from_slice(&pem_encode_block(b"CERTIFICATE", &vec![4, 5, 6]));
    let r = parse_cert(&bundle);
    assert!(matches!(
        r,
        Err(tokio_rustls_acme::state::CertParseError::X509)
    ));
}
