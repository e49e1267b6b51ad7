//! JOSE envelopes: signed request bodies, the external account binding, the
//! key authorization, and the TLS-ALPN-01 validation certificate.

use base64::Engine;
use tokio_rustls_acme::acme::{
    Account, AccountKey, Challenge, ChallengeType, Directory, ExternalAccountKey,
    new_account_payload, new_order_payload, finalize_payload,
};
use tokio_rustls_acme::jose::{jwk_thumbprint, key_authorization_sha256};

fn test_account_key() -> AccountKey {
    let pkcs8 = Account::generate_key_pair();
    AccountKey::from_pkcs8(&pkcs8).unwrap()
}

fn test_account(key: AccountKey) -> Account {
    Account {
        key,
        directory: Directory {
            new_nonce: "https://ca.test/nonce".to_string(),
            new_account: "https://ca.test/new-account".to_string(),
            new_order: "https://ca.test/new-order".to_string(),
        },
        kid: "https://ca.test/account/1".to_string(),
    }
}

fn b64url_decode(s: &str) -> Vec<u8> {
    base64::engine::general_purpose::URL_SAFE_NO_PAD
        .decode(s)
        .unwrap()
}

#[test]
fn thumbprint_matches_independent_computation() {
    let key = test_account_key();
    let thumb = jwk_thumbprint(&key.public_key);
    // RFC 7638: SHA-256 over the lexicographic required members
    let x = base64::engine::general_purpose::URL_SAFE_NO_PAD.encode(&key.public_key[1..33]);
    let y = base64::engine::general_purpose::URL_SAFE_NO_PAD.encode(&key.public_key[33..65]);
    let preimage = format!(
        "{{\"crv\":\"P-256\",\"kty\":\"EC\",\"x\":\"{}\",\"y\":\"{}\"}}",
        x, y
    );
    let digest = ring::digest::digest(&ring::digest::SHA256, preimage.as_bytes());
    let expected = base64::engine::general_purpose::URL_SAFE_NO_PAD.encode(digest.as_ref());
    assert_eq!(String::from_utf8(thumb).unwrap(), expected);
}

#[test]
fn key_authorization_agreement() {
    let key = test_account_key();
    let d1 = key_authorization_sha256(b"token-1", &key.public_key);
    let d2 = key_authorization_sha256(b"token-1", &key.public_key);
    assert_eq!(d1, d2);
    assert_eq!(d1.len(), 32);
    // independent computation of SHA-256(token "." thumbprint)
    let thumb = jwk_thumbprint(&key.public_key);
    let mut preimage = b"token-1.".to_vec();
    preimage.extend_from_slice(&thumb);
    let expected = ring::digest::digest(&ring::digest::SHA256, &preimage);
    assert_eq!(&d1[..], expected.as_ref());
}

#[test]
fn signed_request_carries_url_and_nonce() {
    let account = test_account(test_account_key());
    let nonce = "nonce-abc123".to_string();
    let url = "https://ca.test/order/7".to_string();
    let body = account
        .signed_request_body(&nonce, &url, b"{\"payload\":1}")
        .unwrap();
    let v: serde_json::Value = serde_json::from_slice(&body).unwrap();
    let protected64 = v.get("protected").unwrap().as_str().unwrap();
    let protected: serde_json::Value =
        serde_json::from_slice(&b64url_decode(protected64)).unwrap();
    assert_eq!(protected.get("alg").unwrap().as_str().unwrap(), "ES256");
    assert_eq!(protected.get("nonce").unwrap().as_str().unwrap(), nonce);
    assert_eq!(protected.get("url").unwrap().as_str().unwrap(), url);
    assert_eq!(
        protected.get("kid").unwrap().as_str().unwrap(),
        "https://ca.test/account/1"
    );
    assert!(protected.get("jwk").is_none());
    // the payload round-trips
    let payload64 = v.get("payload").unwrap().as_str().unwrap();
    assert_eq!(b64url_decode(payload64), b"{\"payload\":1}".to_vec());
    // the signature verifies under the account public key
    let sig = b64url_decode(v.get("signature").unwrap().as_str().unwrap());
    assert_eq!(sig.len(), 64);
    let msg = format!("{}.{}", protected64, payload64);
    let pk = ring::signature::UnparsedPublicKey::new(
        &ring::signature::ECDSA_P256_SHA256_FIXED,
        &account.key.public_key,
    );
    pk.verify(msg.as_bytes(), &sig).unwrap();
}

#[test]
fn account_creation_request_uses_jwk() {
    let key = test_account_key();
    let nonce = "n0".to_string();
    let url = "https://ca.test/new-account".to_string();
    let body = tokio_rustls_acme::acme::new_account_request(
        &key,
        &vec!["mailto:admin@example.test".to_string()],
        &None,
        &nonce,
        &url,
    )
    .unwrap();
    let v: serde_json::Value = serde_json::from_slice(&body).unwrap();
    let protected: serde_json::Value = serde_json::from_slice(&b64url_decode(
        v.get("protected").unwrap().as_str().unwrap(),
    ))
    .unwrap();
    assert_eq!(protected.get("alg").unwrap().as_str().unwrap(), "ES256");
    assert!(protected.get("kid").is_none());
    let jwk = protected.get("jwk").unwrap();
    assert_eq!(jwk.get("kty").unwrap().as_str().unwrap(), "EC");
    assert_eq!(jwk.get("crv").unwrap().as_str().unwrap(), "P-256");
    assert_eq!(protected.get("url").unwrap().as_str().unwrap(), url);
    // payload carries the terms and the contact
    let payload: serde_json::Value = serde_json::from_slice(&b64url_decode(
        v.get("payload").unwrap().as_str().unwrap(),
    ))
    .unwrap();
    assert_eq!(
        payload.get("termsOfServiceAgreed").unwrap().as_bool().unwrap(),
        true
    );
    assert_eq!(
        payload.get("contact").unwrap().as_array().unwrap()[0]
            .as_str()
            .unwrap(),
        "mailto:admin@example.test"
    );
    assert!(payload.get("externalAccountBinding").is_none());
}

#[test]
fn eab_payload_shape() {
    let key = test_account_key();
    let eab = ExternalAccountKey::new("test-kid".to_string(), &[7u8; 16]);
    let url = "https://ca.test/new-account".to_string();
    let payload = new_account_payload(&key, &Vec::new(), &Some(eab), &url);
    let v: serde_json::Value = serde_json::from_slice(&payload).unwrap();
    let binding = v.get("externalAccountBinding").unwrap();
    let protected64 = binding.get("protected").unwrap().as_str().unwrap();
    let protected: serde_json::Value =
        serde_json::from_slice(&b64url_decode(protected64)).unwrap();
    assert_eq!(protected.get("alg").unwrap().as_str().unwrap(), "HS256");
    assert_eq!(protected.get("kid").unwrap().as_str().unwrap(), "test-kid");
    assert_eq!(protected.get("url").unwrap().as_str().unwrap(), url);
    // the inner payload is the base64url account public JWK
    let payload64 = binding.get("payload").unwrap().as_str().unwrap();
    let jwk: serde_json::Value = serde_json::from_slice(&b64url_decode(payload64)).unwrap();
    assert_eq!(jwk.get("kty").unwrap().as_str().unwrap(), "EC");
    // the MAC agrees with an independent HMAC-SHA256
    let sig = b64url_decode(binding.get("signature").unwrap().as_str().unwrap());
    let mac_key = ring::hmac::Key::new(ring::hmac::HMAC_SHA256, &[7u8; 16]);
    let msg = format!("{}.{}", protected64, payload64);
    let expected = ring::hmac::sign(&mac_key, msg.as_bytes());
    assert_eq!(&sig[..], expected.as_ref());
}

#[test]
fn new_order_payload_lists_dns_identifiers() {
    let payload = new_order_payload(&vec![
        "a.example.test".to_string(),
        "b.example.test".to_string(),
    ]);
    assert_eq!(
        String::from_utf8(payload).unwrap(),
        "{\"identifiers\":[{\"type\":\"dns\",\"value\":\"a.example.test\"},{\"type\":\"dns\",\"value\":\"b.example.test\"}]}"
    );
}

#[test]
fn finalize_payload_embeds_csr() {
    let csr = vec![1u8, 2, 3, 4];
    let payload = finalize_payload(&csr);
    let expected = format!(
        "{{\"csr\":\"{}\"}}",
        base64::engine::general_purpose::URL_SAFE_NO_PAD.encode(&csr)
    );
    assert_eq!(String::from_utf8(payload).unwrap(), expected);
}

#[test]
fn json_strings_are_escaped() {
    let payload = new_order_payload(&vec!["a\"b\\c\u{1}".to_string()]);
    let v: serde_json::Value = serde_json::from_slice(&payload).unwrap();
    assert_eq!(
        v.get("identifiers").unwrap().as_array().unwrap()[0]
            .get("value")
            .unwrap()
            .as_str()
            .unwrap(),
        "a\"b\\c\u{1}"
    );
}

#[test]
fn tls_alpn_01_builds_validation_certificate() {
    let account = test_account(test_account_key());
    let challenges = vec![
        Challenge {
            typ: ChallengeType::Http01,
            url: "https://ca.test/chall/http".to_string(),
            token: "tok-h".to_string(),
            error: None,
        },
        Challenge {
            typ: ChallengeType::TlsAlpn01,
            url: "https://ca.test/chall/alpn".to_string(),
            token: "tok-a".to_string(),
            error: None,
        },
    ];
    let (challenge, cert_key) = match account.tls_alpn_01(&challenges, "example.test".to_string())
    {
        Ok(pair) => pair,
        Err(_) => panic!("no validation certificate"),
    };
    assert_eq!(challenge.url, "https://ca.test/chall/alpn");
    // the certificate carries the critical ACME identifier extension with
    // the key-authorization digest
    let digest = key_authorization_sha256(b"tok-a", &account.key.public_key);
    let der = cert_key.end_entity_cert().unwrap();
    let (_, parsed) = x509_parser::parse_x509_certificate(der.as_ref()).unwrap();
    let mut found = false;
    for ext in parsed.extensions() {
        if ext.oid.to_id_string() == "1.3.6.1.5.5.7.1.31" {
            assert!(ext.critical);
            // the value is a DER octet string wrapping the digest
            assert_eq!(ext.value.len(), 34);
            assert_eq!(ext.value[0], 0x04);
            assert_eq!(ext.value[1], 32);
            assert_eq!(&ext.value[2..], &digest[..]);
            found = true;
        }
    }
    assert!(found);
}

#[test]
fn tls_alpn_01_without_offer_fails() {
    let account = test_account(test_account_key());
    let challenges = vec![Challenge {
        typ: ChallengeType::Dns01,
        url: "https://ca.test/chall/dns".to_string(),
        token: "tok-d".to_string(),
        error: None,
    }];
    let r = account.tls_alpn_01(&challenges, "example.test".to_string());
    assert!(matches!(
        r,
        Err(tokio_rustls_acme::acme::AcmeError::NoTlsAlpn01Challenge)
    ));
}
