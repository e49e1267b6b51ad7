//! The ACME data model and the exact request bodies the client sends.
//!
//! Orders, authorizations and challenges are plain values; the transport
//! parses server JSON into them outside the library.  What the library
//! states exactly is everything it emits: signed request envelopes, the
//! account-creation, order, and finalize payloads, and the TLS-ALPN-01
//! challenge material.

use vstd::prelude::*;
use vstd::string::StringSliceAdditionalSpecFns;
use crate::b64::spec_b64_encode_nopad;
use crate::crypto::{
    generate_key_pair_pkcs8, p256_key_pair_from_pkcs8, p256_pkcs8_ok, public_key_uncompressed,
    self_signed_alpn_certificate,
};
use crate::https_helper::HttpsRequestError;
use crate::jose::{
    spec_str_bytes, spec_json_str, spec_eab_body, spec_signed_body, push_json_str, sign,
    sign_eab, key_authorization_sha256,
};
use crate::pem::eq_bytes;
use rustls::sign::CertifiedKey;

verus! {

/// The Let's Encrypt staging directory URL.
pub fn lets_encrypt_staging_directory() -> (r: String)
    ensures
        r@ == "https://acme-staging-v02.api.letsencrypt.org/directory"@,
{
    let r = String::from_str("https://acme-staging-v02.api.letsencrypt.org/directory");
    r
}

/// The Let's Encrypt production directory URL.
pub fn lets_encrypt_production_directory() -> (r: String)
    ensures
        r@ == "https://acme-v02.api.letsencrypt.org/directory"@,
{
    let r = String::from_str("https://acme-v02.api.letsencrypt.org/directory");
    r
}

/// The TLS-ALPN-01 protocol identifier, exactly the ten bytes `acme-tls/1`.
pub open spec fn spec_acme_tls_alpn_name() -> Seq<u8> {
    seq![97u8, 99u8, 109u8, 101u8, 45u8, 116u8, 108u8, 115u8, 47u8, 49u8]
}

/// The TLS-ALPN-01 protocol identifier, exactly the ten bytes `acme-tls/1`.
pub fn acme_tls_alpn_name() -> (r: Vec<u8>)
    ensures
        r@ == spec_acme_tls_alpn_name(),
{
    let r: Vec<u8> = vec![97, 99, 109, 101, 45, 116, 108, 115, 47, 49];
    proof {
        assert(r@ =~= spec_acme_tls_alpn_name());
    }
    r
}

/// The three well-known URLs of an ACME directory.
#[derive(Clone, Debug)]
pub struct Directory {
    pub new_nonce: String,
    pub new_account: String,
    pub new_order: String,
}

/// A challenge type the server may offer.
#[derive(Copy, Clone, Debug, PartialEq, Eq, Structural)]
pub enum ChallengeType {
    Http01,
    Dns01,
    TlsAlpn01,
}

/// The state of an order resource.
#[derive(Clone, Debug)]
pub enum OrderStatus {
    Pending,
    Ready,
    Valid { certificate: String },
    Invalid,
    Processing,
}

/// An RFC 7807 problem document, as far as the client reads it.
#[derive(Clone, Debug)]
pub struct Problem {
    pub typ: Option<String>,
    pub detail: Option<String>,
}

/// An order resource.
#[derive(Clone, Debug)]
pub struct Order {
    pub status: OrderStatus,
    pub authorizations: Vec<String>,
    pub finalize: String,
    pub error: Option<Problem>,
}

/// The state of an authorization resource.
#[derive(Copy, Clone, Debug, PartialEq, Eq, Structural)]
pub enum AuthStatus {
    Pending,
    Valid,
    Invalid,
    Revoked,
    Expired,
    Deactivated,
}

/// An identifier an order is placed for.
#[derive(Clone, Debug)]
pub enum Identifier {
    Dns(String),
}

/// One challenge of an authorization.
#[derive(Clone, Debug)]
pub struct Challenge {
    pub typ: ChallengeType,
    pub url: String,
    pub token: String,
    pub error: Option<Problem>,
}

/// An authorization resource.
#[derive(Clone, Debug)]
pub struct Auth {
    pub status: AuthStatus,
    pub identifier: Identifier,
    pub challenges: Vec<Challenge>,
}

/// The client's failure modes.
#[derive(Clone, Debug)]
pub enum AcmeError {
    /// An I/O failure outside the transport, with its message.
    Io(String),
    /// Certificate or key generation failed.
    Rcgen,
    /// Signing the request envelope failed.
    Jose,
    /// Server JSON did not parse, with the parser's message.
    Json(String),
    /// The transport failed.
    HttpRequest(HttpsRequestError),
    /// A persisted key pair was rejected.
    KeyRejected,
    /// A cryptographic operation failed.
    Crypto,
    /// A response lacked a required header; carries the header name.
    MissingHeader(String),
    /// No `tls-alpn-01` challenge was offered.
    NoTlsAlpn01Challenge,
}

/// An optional external account binding: the CA-issued key identifier and
/// the shared HMAC-SHA256 key.
pub struct ExternalAccountKey {
    pub kid: String,
    pub key: Vec<u8>,
}

impl ExternalAccountKey {
    /// Pack a key identifier and raw key bytes.
    pub fn new(kid: String, key: &[u8]) -> (r: Self)
        ensures
            r.kid@ == kid@,
            r.key@ == key@,
    {
        let key_vec = vstd::slice::slice_to_vec(key);
        ExternalAccountKey { kid, key: key_vec }
    }
}

/// The account's ECDSA P-256 identity: the parsed key pair, its uncompressed
/// public point, and the PKCS#8 document it came from.
pub struct AccountKey {
    pub key_pair: ring::signature::EcdsaKeyPair,
    pub public_key: Vec<u8>,
    pub pkcs8: Vec<u8>,
}

impl AccountKey {
    /// Well-formed: the public point is 65 bytes, as P-256 uncompressed form.
    pub open spec fn wf(&self) -> bool {
        self.public_key@.len() == 65
    }

    /// Parse a PKCS#8 document into an account key.  Acceptance is exactly
    /// ring's (`p256_pkcs8_ok`); in particular every freshly generated
    /// document is accepted.
    pub fn from_pkcs8(der: &Vec<u8>) -> (r: Result<AccountKey, AcmeError>)
        ensures
            r is Ok <==> p256_pkcs8_ok(der@),
            r is Ok ==> r.unwrap().wf() && r.unwrap().pkcs8@ == der@,
            r matches Err(e) ==> e is KeyRejected,
    {
        match p256_key_pair_from_pkcs8(der.as_slice()) {
            Ok(key_pair) => {
                let public_key = public_key_uncompressed(&key_pair);
                let pkcs8 = der.clone();
                Ok(AccountKey { key_pair, public_key, pkcs8 })
            },
            Err(_) => Err(AcmeError::KeyRejected),
        }
    }
}

/// A registered account: its key and the URL the server knows it under.
pub struct Account {
    pub key: AccountKey,
    pub directory: Directory,
    pub kid: String,
}

impl Account {
    /// Well-formed: the key is.
    pub open spec fn wf(&self) -> bool {
        self.key.wf()
    }

    /// A fresh P-256 account key pair as a PKCS#8 document.  The key is
    /// random; the document always parses back (`AccountKey::from_pkcs8`
    /// accepts it).
    pub fn generate_key_pair() -> (r: Vec<u8>)
        ensures
            p256_pkcs8_ok(r@),
    {
        generate_key_pair_pkcs8()
    }

    /// The signed body of a request to `url` with the given payload, under
    /// this account's URL and the given nonce.
    pub fn signed_request_body(&self, nonce: &String, url: &String, payload: &[u8]) -> (r: Result<
        Vec<u8>,
        AcmeError,
    >)
        requires
            self.wf(),
        ensures
            r is Ok ==> exists|sig: Seq<u8>|
                sig.len() == 64 && r.unwrap()@ == spec_signed_body(
                    self.key.public_key@,
                    Some(spec_str_bytes(self.kid@)),
                    spec_str_bytes(nonce@),
                    spec_str_bytes(url@),
                    payload@,
                    sig,
                ),
            r matches Err(e) ==> e is Jose,
    {
        match sign(&self.key.key_pair, &self.key.public_key, Some(&self.kid), nonce, url, payload) {
            Ok(body) => Ok(body),
            Err(_) => Err(AcmeError::Jose),
        }
    }

    /// The first offered `tls-alpn-01` challenge together with a fresh
    /// self-signed validation certificate for the domain, carrying the
    /// key-authorization digest of the challenge token.
    pub fn tls_alpn_01<'a>(&self, challenges: &'a Vec<Challenge>, domain: String) -> (r: Result<
        (&'a Challenge, CertifiedKey),
        AcmeError,
    >)
        requires
            self.wf(),
        ensures
            ({
                let i = spec_alpn_index(challenges@);
                &&& r matches Ok(c) ==> 0 <= i && *c.0 == challenges@[i]
                &&& (r matches Err(e) && e is NoTlsAlpn01Challenge) <==> i < 0
                &&& r matches Err(e) ==> (e is NoTlsAlpn01Challenge || e is Rcgen)
            }),
    {
        let n = challenges.len();
        let mut i: usize = 0;
        while i < n
            invariant
                i <= n,
                n == challenges@.len(),
                self.wf(),
                forall|k: int| 0 <= k < i ==> challenges@[k].typ != ChallengeType::TlsAlpn01,
        decreases n - i,
        {
            if challenges[i].typ == ChallengeType::TlsAlpn01 {
                proof {
                    lemma_alpn_index_at(challenges@, i as int);
                }
                let challenge = &challenges[i];
                let digest = key_authorization_sha256(
                    challenge.token.as_str().as_bytes(),
                    self.key.public_key.as_slice(),
                );
                match self_signed_alpn_certificate(&domain, digest.as_slice()) {
                    Ok(cert_key) => {
                        return Ok((challenge, cert_key));
                    },
                    Err(_) => {
                        return Err(AcmeError::Rcgen);
                    },
                }
            }
            i = i + 1;
        }
        proof {
            lemma_alpn_index_none(challenges@);
        }
        Err(AcmeError::NoTlsAlpn01Challenge)
    }
}

/// Index of the first `tls-alpn-01` challenge, or -1.
pub open spec fn spec_alpn_index(cs: Seq<Challenge>) -> int
    decreases cs.len(),
{
    if cs.len() == 0 {
        -1
    } else if cs[0].typ == ChallengeType::TlsAlpn01 {
        0
    } else {
        let r = spec_alpn_index(cs.skip(1));
        if r < 0 {
            -1
        } else {
            1 + r
        }
    }
}

proof fn lemma_alpn_index_at(cs: Seq<Challenge>, j: int)
    requires
        0 <= j < cs.len(),
        forall|k: int| 0 <= k < j ==> cs[k].typ != ChallengeType::TlsAlpn01,
        cs[j].typ == ChallengeType::TlsAlpn01,
    ensures
        spec_alpn_index(cs) == j,
    decreases j,
{
    if j == 0 {
    } else {
        lemma_alpn_index_at(cs.skip(1), j - 1);
    }
}

proof fn lemma_alpn_index_none(cs: Seq<Challenge>)
    requires
        forall|k: int| 0 <= k < cs.len() ==> cs[k].typ != ChallengeType::TlsAlpn01,
    ensures
        spec_alpn_index(cs) == -1,
    decreases cs.len(),
{
    if cs.len() == 0 {
    } else {
        lemma_alpn_index_none(cs.skip(1));
    }
}

/// The payload that triggers a challenge: the empty JSON object.
pub fn challenge_payload() -> (r: Vec<u8>)
    ensures
        r@ == "{}".spec_bytes(),
{
    let mut out: Vec<u8> = Vec::new();
    out.extend_from_slice("{}".as_bytes());
    out
}

/// The POST-as-GET payload: the empty string.
pub fn post_as_get_payload() -> (r: Vec<u8>)
    ensures
        r@.len() == 0,
{
    Vec::new()
}

/// The `Location` header a creation response must carry, or the
/// `MissingHeader` failure naming it.
pub fn require_location(location: Option<String>) -> (r: Result<String, AcmeError>)
    ensures
        match location {
            Some(url) => r matches Ok(u) && u == url,
            None => r matches Err(e) && (e matches AcmeError::MissingHeader(n) && n@
                == "Location"@),
        },
{
    match location {
        Some(url) => Ok(url),
        None => Err(AcmeError::MissingHeader(String::from_str("Location"))),
    }
}

/// The signed body of the account-creation request: the new-account payload
/// under a JWK-carrying protected header with the given nonce and URL.
pub fn new_account_request(
    key: &AccountKey,
    contact: &Vec<String>,
    eab: &Option<ExternalAccountKey>,
    nonce: &String,
    new_account_url: &String,
) -> (r: Result<Vec<u8>, AcmeError>)
    requires
        key.wf(),
    ensures
        r matches Ok(body) ==> exists|sig: Seq<u8>|
            sig.len() == 64 && body@ == spec_signed_body(
                key.public_key@,
                None,
                spec_str_bytes(nonce@),
                spec_str_bytes(new_account_url@),
                spec_new_account_payload(
                    spec_strings_bytes(contact@),
                    match eab {
                        None => None,
                        Some(e) => Some(
                            spec_eab_body(
                                key.public_key@,
                                spec_str_bytes(e.kid@),
                                e.key@,
                                spec_str_bytes(new_account_url@),
                            ),
                        ),
                    },
                ),
                sig,
            ),
        r matches Err(e) ==> e is Jose,
{
    let payload = new_account_payload(key, contact, eab, new_account_url);
    match sign(&key.key_pair, &key.public_key, None, nonce, new_account_url, payload.as_slice()) {
        Ok(body) => Ok(body),
        Err(_) => Err(AcmeError::Jose),
    }
}

/// Adopt the account URL a creation response carried; without one the
/// account is not usable.
pub fn account_from_parts(
    key: AccountKey,
    directory: Directory,
    location: Option<String>,
) -> (r: Result<Account, AcmeError>)
    requires
        key.wf(),
    ensures
        match location {
            Some(url) => r matches Ok(a) && a.wf() && a.kid == url && a.key == key
                && a.directory == directory,
            None => r matches Err(e) && (e matches AcmeError::MissingHeader(n) && n@
                == "Location"@),
        },
{
    match require_location(location) {
        Ok(kid) => Ok(Account { key, directory, kid }),
        Err(e) => Err(e),
    }
}

// ---------------------------------------------------------------------------
// request payloads
// ---------------------------------------------------------------------------


/// The items of a JSON array of strings after the first: a comma before
/// each.
pub open spec fn spec_json_str_more(items: Seq<Seq<u8>>) -> Seq<u8>
    decreases items.len(),
{
    if items.len() == 0 {
        Seq::empty()
    } else {
        seq![44u8] + spec_json_str(items[0]) + spec_json_str_more(items.skip(1))
    }
}

/// A JSON array of strings.
pub open spec fn spec_json_str_array(items: Seq<Seq<u8>>) -> Seq<u8> {
    if items.len() == 0 {
        "[]".spec_bytes()
    } else {
        seq![91u8] + spec_json_str(items[0]) + spec_json_str_more(items.skip(1)) + seq![93u8]
    }
}

/// The byte strings of a list of strings.
pub open spec fn spec_strings_bytes(v: Seq<String>) -> Seq<Seq<u8>> {
    v.map_values(|s: String| spec_str_bytes(s@))
}

/// Append a JSON array of strings to `out`.
pub fn push_json_str_array(out: &mut Vec<u8>, items: &Vec<String>)
    ensures
        final(out)@ == old(out)@ + spec_json_str_array(spec_strings_bytes(items@)),
{
    let ghost bs = spec_strings_bytes(items@);
    let n = items.len();
    if n == 0 {
        out.extend_from_slice("[]".as_bytes());
        return ;
    }
    let ghost base = out@;
    out.push(91);
    push_json_str(out, items[0].as_str().as_bytes());
    let mut i: usize = 1;
    proof {
        assert(bs[0] == spec_str_bytes(items@[0]@));
        assert(out@ + spec_json_str_more(bs.skip(1)) =~= base + seq![91u8] + spec_json_str(bs[0])
            + spec_json_str_more(bs.skip(1)));
    }
    while i < n
        invariant
            1 <= i <= n,
            n == items@.len(),
            bs == spec_strings_bytes(items@),
            out@ + spec_json_str_more(bs.skip(i as int)) == base + seq![91u8] + spec_json_str(
                bs[0],
            ) + spec_json_str_more(bs.skip(1)),
        decreases n - i,
    {
        out.push(44);
        push_json_str(out, items[i].as_str().as_bytes());
        proof {
            assert(bs.skip(i as int)[0] == spec_str_bytes(items@[i as int]@));
            assert(bs.skip(i as int).skip(1) =~= bs.skip(i + 1));
        }
        i = i + 1;
    }
    out.push(93);
    proof {
        assert(bs.skip(n as int) =~= Seq::<Seq<u8>>::empty());
        assert(spec_json_str_more(bs.skip(n as int)) =~= Seq::<u8>::empty());
        assert(out@ =~= base + spec_json_str_array(bs));
    }
}

/// The account-creation payload: terms agreed, the contact list, and the
/// external account binding when one is configured.
pub open spec fn spec_new_account_payload(
    contact: Seq<Seq<u8>>,
    eab: Option<Seq<u8>>,
) -> Seq<u8> {
    match eab {
        None => "{\"termsOfServiceAgreed\":true,\"contact\":".spec_bytes() + spec_json_str_array(
            contact,
        ) + "}".spec_bytes(),
        Some(b) => "{\"termsOfServiceAgreed\":true,\"contact\":".spec_bytes()
            + spec_json_str_array(contact) + ",\"externalAccountBinding\":".spec_bytes() + b
            + "}".spec_bytes(),
    }
}

/// Build the account-creation payload.  With an external account binding the
/// payload embeds its inner JWS, signed here with the external HMAC key over
/// the account public JWK and the new-account URL.
pub fn new_account_payload(
    key: &AccountKey,
    contact: &Vec<String>,
    eab: &Option<ExternalAccountKey>,
    new_account_url: &String,
) -> (r: Vec<u8>)
    requires
        key.wf(),
    ensures
        r@ == spec_new_account_payload(
            spec_strings_bytes(contact@),
            match eab {
                None => None,
                Some(e) => Some(
                    spec_eab_body(
                        key.public_key@,
                        spec_str_bytes(e.kid@),
                        e.key@,
                        spec_str_bytes(new_account_url@),
                    ),
                ),
            },
        ),
{
    let mut out: Vec<u8> = Vec::new();
    out.extend_from_slice("{\"termsOfServiceAgreed\":true,\"contact\":".as_bytes());
    push_json_str_array(&mut out, contact);
    match eab {
        None => {
            out.extend_from_slice("}".as_bytes());
        },
        Some(e) => {
            out.extend_from_slice(",\"externalAccountBinding\":".as_bytes());
            let mut body = sign_eab(&key.public_key, &e.kid, &e.key, new_account_url);
            out.append(&mut body);
            out.extend_from_slice("}".as_bytes());
        },
    }
    proof {
        assert(out@ =~= spec_new_account_payload(
            spec_strings_bytes(contact@),
            match eab {
                None => None::<Seq<u8>>,
                Some(e) => Some(
                    spec_eab_body(
                        key.public_key@,
                        spec_str_bytes(e.kid@),
                        e.key@,
                        spec_str_bytes(new_account_url@),
                    ),
                ),
            },
        ));
    }
    out
}

/// One identifier of a new-order payload: `{"type":"dns","value":<domain>}`.
pub open spec fn spec_identifier_json(d: Seq<u8>) -> Seq<u8> {
    "{\"type\":\"dns\",\"value\":".spec_bytes() + spec_json_str(d) + "}".spec_bytes()
}

/// The identifiers after the first: a comma before each.
pub open spec fn spec_identifiers_more(ds: Seq<Seq<u8>>) -> Seq<u8>
    decreases ds.len(),
{
    if ds.len() == 0 {
        Seq::empty()
    } else {
        seq![44u8] + spec_identifier_json(ds[0]) + spec_identifiers_more(ds.skip(1))
    }
}

/// The new-order payload over the domain list.
pub open spec fn spec_new_order_payload(ds: Seq<Seq<u8>>) -> Seq<u8> {
    if ds.len() == 0 {
        "{\"identifiers\":[]}".spec_bytes()
    } else {
        "{\"identifiers\":[".spec_bytes() + spec_identifier_json(ds[0]) + spec_identifiers_more(
            ds.skip(1),
        ) + "]}".spec_bytes()
    }
}

/// Build the new-order payload: one DNS identifier per domain, in order.
pub fn new_order_payload(domains: &Vec<String>) -> (r: Vec<u8>)
    ensures
        r@ == spec_new_order_payload(spec_strings_bytes(domains@)),
{
    let ghost bs = spec_strings_bytes(domains@);
    let n = domains.len();
    let mut out: Vec<u8> = Vec::new();
    if n == 0 {
        out.extend_from_slice("{\"identifiers\":[]}".as_bytes());
        return out;
    }
    out.extend_from_slice("{\"identifiers\":[".as_bytes());
    out.extend_from_slice("{\"type\":\"dns\",\"value\":".as_bytes());
    push_json_str(&mut out, domains[0].as_str().as_bytes());
    out.extend_from_slice("}".as_bytes());
    let ghost head = "{\"identifiers\":[".spec_bytes() + spec_identifier_json(bs[0]);
    let mut i: usize = 1;
    proof {
        assert(bs[0] == spec_str_bytes(domains@[0]@));
        assert(out@ =~= head);
    }
    while i < n
        invariant
            1 <= i <= n,
            n == domains@.len(),
            bs == spec_strings_bytes(domains@),
            head == "{\"identifiers\":[".spec_bytes() + spec_identifier_json(bs[0]),
            out@ + spec_identifiers_more(bs.skip(i as int)) == head + spec_identifiers_more(
                bs.skip(1),
            ),
        decreases n - i,
    {
        out.push(44);
        out.extend_from_slice("{\"type\":\"dns\",\"value\":".as_bytes());
        push_json_str(&mut out, domains[i].as_str().as_bytes());
        out.extend_from_slice("}".as_bytes());
        proof {
            assert(bs.skip(i as int)[0] == spec_str_bytes(domains@[i as int]@));
            assert(bs.skip(i as int).skip(1) =~= bs.skip(i + 1));
        }
        i = i + 1;
    }
    out.extend_from_slice("]}".as_bytes());
    proof {
        assert(bs.skip(n as int) =~= Seq::<Seq<u8>>::empty());
        assert(spec_identifiers_more(bs.skip(n as int)) =~= Seq::<u8>::empty());
        assert(out@ =~= spec_new_order_payload(bs));
    }
    out
}

/// The finalize payload: the CSR in base64url, `{"csr":"<...>"}`.
pub open spec fn spec_finalize_payload(csr: Seq<u8>) -> Seq<u8> {
    "{\"csr\":\"".spec_bytes() + spec_b64_encode_nopad(true, csr) + "\"}".spec_bytes()
}

/// Build the finalize payload from the CSR in DER.
pub fn finalize_payload(csr: &Vec<u8>) -> (r: Vec<u8>)
    ensures
        r@ == spec_finalize_payload(csr@),
{
    let mut out: Vec<u8> = Vec::new();
    out.extend_from_slice("{\"csr\":\"".as_bytes());
    let mut enc = crate::jose::b64url(csr.as_slice());
    out.append(&mut enc);
    out.extend_from_slice("\"}".as_bytes());
    proof {
        assert(out@ =~= spec_finalize_payload(csr@));
    }
    out
}

// ---------------------------------------------------------------------------
// response headers
// ---------------------------------------------------------------------------

/// The byte strings of a header list.
pub open spec fn spec_headers_bytes(hs: Seq<(String, String)>) -> Seq<(Seq<u8>, Seq<u8>)> {
    hs.map_values(|p: (String, String)| (spec_str_bytes(p.0@), spec_str_bytes(p.1@)))
}

/// The value of the last header with the given name, if any.
pub open spec fn spec_last_header(hs: Seq<(Seq<u8>, Seq<u8>)>, name: Seq<u8>) -> Option<Seq<u8>>
    decreases hs.len(),
{
    if hs.len() == 0 {
        None
    } else if hs.last().0 == name {
        Some(hs.last().1)
    } else {
        spec_last_header(hs.drop_last(), name)
    }
}

proof fn lemma_last_header_at(hs: Seq<(Seq<u8>, Seq<u8>)>, name: Seq<u8>, j: int)
    requires
        0 <= j < hs.len(),
        hs[j].0 == name,
        forall|k: int| j < k < hs.len() ==> hs[k].0 != name,
    ensures
        spec_last_header(hs, name) == Some(hs[j].1),
    decreases hs.len(),
{
    if j == hs.len() - 1 {
    } else {
        lemma_last_header_at(hs.drop_last(), name, j);
    }
}

proof fn lemma_last_header_none(hs: Seq<(Seq<u8>, Seq<u8>)>, name: Seq<u8>)
    requires
        forall|k: int| 0 <= k < hs.len() ==> hs[k].0 != name,
    ensures
        spec_last_header(hs, name) is None,
    decreases hs.len(),
{
    if hs.len() == 0 {
    } else {
        lemma_last_header_none(hs.drop_last(), name);
    }
}

/// The value of the last header with the given name, or a `MissingHeader`
/// failure naming it.
pub fn get_header(headers: &Vec<(String, String)>, name: &String) -> (r: Result<String, AcmeError>)
    ensures
        match spec_last_header(spec_headers_bytes(headers@), spec_str_bytes(name@)) {
            Some(v) => r is Ok && spec_str_bytes(r.unwrap()@) == v,
            None => r matches Err(AcmeError::MissingHeader(n)) && n@ == name@,
        },
{
    let ghost hs = spec_headers_bytes(headers@);
    let ghost nb = spec_str_bytes(name@);
    let n = headers.len();
    let mut i: usize = n;
    while i > 0
        invariant
            i <= n,
            n == headers@.len(),
            hs == spec_headers_bytes(headers@),
            nb == spec_str_bytes(name@),
            forall|k: int| i <= k < n ==> hs[k].0 != nb,
        decreases i,
    {
        i = i - 1;
        if eq_bytes(headers[i].0.as_str().as_bytes(), name.as_str().as_bytes()) {
            proof {
                assert(hs[i as int].0 == spec_str_bytes(headers@[i as int].0@));
                lemma_last_header_at(hs, nb, i as int);
            }
            return Ok(headers[i].1.clone());
        }
        proof {
            assert(hs[i as int].0 == spec_str_bytes(headers@[i as int].0@));
        }
    }
    proof {
        lemma_last_header_none(hs, nb);
    }
    Err(AcmeError::MissingHeader(name.clone()))
}

} // verus!
