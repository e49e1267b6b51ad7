//! Trusted boundary to the cryptographic back ends.
//!
//! Every function here is `external_body`: its contract is believed, not
//! proved.  Contracts state only what the called crates' sources and
//! documentation plainly give: digest and MAC lengths and determinism, the
//! fixed ECDSA signature length, the uncompressed public-point length, and
//! the exact PEM text that rcgen writes for a fresh private key.  Values of
//! outside types (key pairs, certified keys) stay opaque.

use vstd::prelude::*;
use crate::pem::spec_pem_block_text;
use ring::signature::KeyPair;
use rustls::sign::CertifiedKey;

verus! {

/// The SHA-256 digest of a byte string, as a function of the bytes alone.
pub uninterp spec fn sha256_of(data: Seq<u8>) -> Seq<u8>;

/// The HMAC-SHA256 tag over a message under a key, as a function of both.
pub uninterp spec fn hmac_sha256_of(key: Seq<u8>, msg: Seq<u8>) -> Seq<u8>;

/// The `[not_before, not_after]` instants (Unix seconds) of a DER
/// certificate, as a function of its bytes alone; nothing when the bytes do
/// not parse as X.509.
pub uninterp spec fn x509_validity_of(der: Seq<u8>) -> Option<(i64, i64)>;

/// Whether a PKCS#8 document is a P-256 key pair that ring's parser
/// accepts, as a function of the bytes alone.
pub uninterp spec fn p256_pkcs8_ok(der: Seq<u8>) -> bool;

/// Whether a PKCS#8 document holds an ECDSA key that rustls's signer
/// factory accepts, as a function of the bytes alone.
pub uninterp spec fn ecdsa_key_ok(der: Seq<u8>) -> bool;

/// Relies on ring's `digest::digest` with SHA-256: the digest is a function
/// of the input alone and is 32 bytes long.
#[verifier::external_body]
pub fn sha256(data: &[u8]) -> (r: Vec<u8>)
    ensures
        r@ == sha256_of(data@),
        r@.len() == 32,
{
    ring::digest::digest(&ring::digest::SHA256, data).as_ref().to_vec()
}

/// Relies on ring's `hmac::sign` with HMAC_SHA256: the tag is a function of
/// key and message alone and is 32 bytes long.
#[verifier::external_body]
pub fn hmac_sha256(key: &[u8], msg: &[u8]) -> (r: Vec<u8>)
    ensures
        r@ == hmac_sha256_of(key@, msg@),
        r@.len() == 32,
{
    let k = ring::hmac::Key::new(ring::hmac::HMAC_SHA256, key);
    ring::hmac::sign(&k, msg).as_ref().to_vec()
}

#[verifier::external_type_specification]
#[verifier::external_body]
pub struct ExEcdsaKeyPair(ring::signature::EcdsaKeyPair);

/// Relies on ring's `EcdsaKeyPair::generate_pkcs8` with the P-256 fixed
/// signing algorithm: a fresh key pair as a PKCS#8 v1 document, in the very
/// format `EcdsaKeyPair::from_pkcs8` parses (private and public key wrapped
/// by the same template).  The key depends on the system random number
/// generator; nothing but its parsability is stated.
#[verifier::external_body]
pub fn generate_key_pair_pkcs8() -> (r: Vec<u8>)
    ensures
        p256_pkcs8_ok(r@),
{
    let rng = ring::rand::SystemRandom::new();
    let doc = ring::signature::EcdsaKeyPair::generate_pkcs8(
        &ring::signature::ECDSA_P256_SHA256_FIXED_SIGNING,
        &rng,
    ).unwrap();
    doc.as_ref().to_vec()
}

/// Relies on ring's `EcdsaKeyPair::from_pkcs8`: parses a PKCS#8 v1 P-256
/// document, failing on anything else.  Acceptance is a function of the
/// bytes alone, named `p256_pkcs8_ok`.
#[verifier::external_body]
pub fn p256_key_pair_from_pkcs8(der: &[u8]) -> (r: Result<ring::signature::EcdsaKeyPair, ()>)
    ensures
        r is Ok <==> p256_pkcs8_ok(der@),
{
    let rng = ring::rand::SystemRandom::new();
    ring::signature::EcdsaKeyPair::from_pkcs8(
        &ring::signature::ECDSA_P256_SHA256_FIXED_SIGNING,
        der,
        &rng,
    ).map_err(|_| ())
}

/// Relies on ring's `EcdsaKeyPair::sign` with a fixed-format algorithm: the
/// signature is `r || s`, each 32 bytes.  The signature is randomized;
/// nothing but its length is stated.
#[verifier::external_body]
pub fn es256_sign(key: &ring::signature::EcdsaKeyPair, msg: &[u8]) -> (r: Result<Vec<u8>, ()>)
    ensures
        r is Ok ==> r.unwrap()@.len() == 64,
{
    let rng = ring::rand::SystemRandom::new();
    match key.sign(&rng, msg) {
        Ok(sig) => Ok(sig.as_ref().to_vec()),
        Err(_) => Err(()),
    }
}

/// Relies on ring's `KeyPair::public_key` for P-256: the public key in
/// uncompressed SEC 1 form, 65 bytes (a leading octet, then x, then y).
#[verifier::external_body]
pub fn public_key_uncompressed(key: &ring::signature::EcdsaKeyPair) -> (r: Vec<u8>)
    ensures
        r@.len() == 65,
{
    key.public_key().as_ref().to_vec()
}

#[verifier::external_type_specification]
#[verifier::external_body]
pub struct ExCertifiedKey(CertifiedKey);

/// Relies on rustls's `any_ecdsa_type` and `CertifiedKey::new`: packs a
/// PKCS#8 ECDSA key and a DER chain into a certified key for the resolver.
/// `CertifiedKey::new` is a plain constructor, so the call fails exactly
/// when `any_ecdsa_type` rejects the key — a function of the key bytes
/// alone, named `ecdsa_key_ok`.
#[verifier::external_body]
pub fn certified_key_from_parts(key_pkcs8_der: &[u8], chain_der: &Vec<Vec<u8>>) -> (r: Result<
    CertifiedKey,
    (),
>)
    ensures
        r is Ok <==> ecdsa_key_ok(key_pkcs8_der@),
{
    let pk_der = rustls::pki_types::PrivateKeyDer::from(
        rustls::pki_types::PrivatePkcs8KeyDer::from(key_pkcs8_der.to_vec()),
    );
    let pk = rustls::crypto::ring::sign::any_ecdsa_type(&pk_der).map_err(|_| ())?;
    let chain = chain_der.iter().map(|c| rustls::pki_types::CertificateDer::from(c.clone())).collect();
    Ok(CertifiedKey::new(chain, pk))
}

/// The PEM tag of a PKCS#8 private key block, `PRIVATE KEY`.
pub open spec fn spec_private_key_tag() -> Seq<u8> {
    seq![80u8, 82u8, 73u8, 86u8, 65u8, 84u8, 69u8, 32u8, 75u8, 69u8, 89u8]
}

/// The PEM tag of a PKCS#8 private key block, `PRIVATE KEY`.
pub fn private_key_tag() -> (r: Vec<u8>)
    ensures
        r@ == spec_private_key_tag(),
{
    let r: Vec<u8> = vec![80, 82, 73, 86, 65, 84, 69, 32, 75, 69, 89];
    proof {
        assert(r@ =~= spec_private_key_tag());
    }
    r
}

/// Relies on rcgen: a fresh P-256 key pair and a certificate signing request
/// for the given DNS names, with an empty distinguished name.  Returns the
/// CSR in DER, the key in PKCS#8 DER, and the key as PEM text; rcgen writes
/// that text as one `PRIVATE KEY` block over the same DER, base64 wrapped at
/// 64 columns with LF endings on this platform (`KeyPair::serialize_pem`,
/// `pem::encode_config`).
#[verifier::external_body]
pub fn order_key_and_csr(domains: &Vec<String>) -> (r: Result<(Vec<u8>, Vec<u8>, Vec<u8>), ()>)
    ensures
        r is Ok ==> r.unwrap().2@ == spec_pem_block_text(
            spec_private_key_tag(),
            r.unwrap().1@,
        ),
{
    let mut params = rcgen::CertificateParams::new(domains.clone()).map_err(|_| ())?;
    params.distinguished_name = rcgen::DistinguishedName::new();
    let key_pair = rcgen::KeyPair::generate_for(&rcgen::PKCS_ECDSA_P256_SHA256).map_err(|_| ())?;
    let csr = params.serialize_request(&key_pair).map_err(|_| ())?;
    Ok((csr.der().as_ref().to_vec(), key_pair.serialize_der(), key_pair.serialize_pem().into_bytes()))
}

/// Relies on rcgen: a fresh self-signed certificate for the domain carrying
/// the critical ACME identifier extension (`CustomExtension::
/// new_acme_identifier`) over the 32-byte key-authorization digest, packed
/// with its fresh P-256 key into a certified key.
#[verifier::external_body]
pub fn self_signed_alpn_certificate(domain: &String, digest: &[u8]) -> Result<
    CertifiedKey,
    (),
>
    requires
        digest@.len() == 32,
{
    let mut params = rcgen::CertificateParams::new(vec![domain.clone()]).map_err(|_| ())?;
    params.custom_extensions = vec![rcgen::CustomExtension::new_acme_identifier(digest)];
    let key_pair = rcgen::KeyPair::generate_for(&rcgen::PKCS_ECDSA_P256_SHA256).map_err(|_| ())?;
    let cert = params.self_signed(&key_pair).map_err(|_| ())?;
    let pk_der = rustls::pki_types::PrivateKeyDer::from(
        rustls::pki_types::PrivatePkcs8KeyDer::from(key_pair.serialize_der()),
    );
    let pk = rustls::crypto::ring::sign::any_ecdsa_type(&pk_der).map_err(|_| ())?;
    Ok(CertifiedKey::new(vec![cert.der().clone()], pk))
}

/// Relies on x509-parser's `parse_x509_certificate`: whether the DER parses
/// and, if so, its validity instants as Unix seconds — both functions of
/// the bytes alone, named together by `x509_validity_of`.
#[verifier::external_body]
pub fn cert_validity(der: &[u8]) -> (r: Result<(i64, i64), ()>)
    ensures
        r is Ok <==> x509_validity_of(der@) is Some,
        r matches Ok(v) ==> Some(v) == x509_validity_of(der@),
{
    match x509_parser::parse_x509_certificate(der) {
        Ok((_, cert)) => {
            let v = cert.validity();
            Ok((v.not_before.timestamp(), v.not_after.timestamp()))
        },
        Err(_) => Err(()),
    }
}

/// Relies on `String::from_utf8`: ASCII bytes are valid UTF-8 and decode to
/// the characters with the same values.
#[verifier::external_body]
pub fn string_from_ascii(bytes: Vec<u8>) -> (r: String)
    requires
        forall|i: int| 0 <= i < bytes@.len() ==> bytes@[i] < 128,
    ensures
        r@.len() == bytes@.len(),
        forall|i: int| 0 <= i < bytes@.len() ==> r@[i] == bytes@[i] as char,
{
    String::from_utf8(bytes).unwrap()
}

} // verus!
