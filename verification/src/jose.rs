//! JOSE envelopes for ACME: flattened JWS serialization, the account JWK and
//! its RFC 7638 thumbprint, the key authorization, and the external account
//! binding.
//!
//! Everything here is byte-exact string building over the URL-safe base64
//! codec; only the ES256 signature itself and the two digests come from the
//! trusted boundary.

use vstd::prelude::*;
use vstd::string::StringSliceAdditionalSpecFns;
use crate::b64::{spec_b64_encode_nopad, b64_encode_nopad};
use crate::crypto::{sha256, sha256_of, hmac_sha256, hmac_sha256_of, es256_sign};

verus! {

/// URL-safe base64 without padding, the JOSE encoding.
pub open spec fn spec_b64url(s: Seq<u8>) -> Seq<u8> {
    spec_b64_encode_nopad(true, s)
}

/// The UTF-8 bytes of a string value.
pub open spec fn spec_str_bytes(s: Seq<char>) -> Seq<u8> {
    vstd::utf8::encode_utf8(s)
}

/// URL-safe base64 without padding, the JOSE encoding.
pub fn b64url(s: &[u8]) -> (r: Vec<u8>)
    ensures
        r@ == spec_b64url(s@),
{
    b64_encode_nopad(true, s)
}

/// A lowercase hexadecimal digit.
pub open spec fn spec_hex_digit(v: u8) -> u8 {
    if v < 10 {
        (48 + v) as u8
    } else {
        (87 + v) as u8
    }
}

/// The JSON string escape of one byte: `"` and `\` get a backslash, control
/// bytes become `\u00XX`, everything else stands as it is.
pub open spec fn spec_escape_byte(c: u8) -> Seq<u8> {
    if c == 34 {
        seq![92u8, 34u8]
    } else if c == 92 {
        seq![92u8, 92u8]
    } else if c < 32 {
        seq![92u8, 117u8, 48u8, 48u8, spec_hex_digit(c >> 4), spec_hex_digit(c & 15)]
    } else {
        seq![c]
    }
}

/// The JSON string escape of a byte string.
pub open spec fn spec_json_escape(s: Seq<u8>) -> Seq<u8>
    decreases s.len(),
{
    if s.len() == 0 {
        Seq::empty()
    } else {
        spec_escape_byte(s[0]) + spec_json_escape(s.skip(1))
    }
}

/// A JSON string literal: the escaped bytes between quotes.
pub open spec fn spec_json_str(s: Seq<u8>) -> Seq<u8> {
    seq![34u8] + spec_json_escape(s) + seq![34u8]
}

proof fn lemma_escape_snoc(s: Seq<u8>, i: int)
    requires
        0 <= i < s.len(),
    ensures
        spec_json_escape(s.take(i + 1)) == spec_json_escape(s.take(i)) + spec_escape_byte(s[i]),
    decreases i,
{
    if i == 0 {
        assert(s.take(1)[0] == s[0]);
        assert(s.take(1).skip(1) =~= Seq::<u8>::empty());
        assert(s.take(0) =~= Seq::<u8>::empty());
        assert(spec_json_escape(Seq::<u8>::empty()) =~= Seq::<u8>::empty());
        assert(spec_json_escape(s.take(i + 1)) =~= spec_json_escape(s.take(i)) + spec_escape_byte(
            s[i],
        ));
    } else {
        lemma_escape_snoc(s.skip(1), i - 1);
        assert(s.take(i + 1)[0] == s[0]);
        assert(s.take(i)[0] == s[0]);
        assert(s.take(i + 1).skip(1) =~= s.skip(1).take(i));
        assert(s.take(i).skip(1) =~= s.skip(1).take(i - 1));
        assert(s.skip(1)[i - 1] == s[i]);
        assert(spec_json_escape(s.take(i + 1)) =~= spec_json_escape(s.take(i)) + spec_escape_byte(
            s[i],
        ));
    }
}

/// Append the JSON escape of `s` to `out`.
fn json_escape_into(out: &mut Vec<u8>, s: &[u8])
    ensures
        final(out)@ == old(out)@ + spec_json_escape(s@),
{
    let ghost base = out@;
    let n = s.len();
    let mut i: usize = 0;
    proof {
        assert(s@.take(0) =~= Seq::<u8>::empty());
        assert(spec_json_escape(Seq::<u8>::empty()) =~= Seq::<u8>::empty());
        assert(out@ =~= base + spec_json_escape(s@.take(0)));
    }
    while i < n
        invariant
            i <= n,
            n == s@.len(),
            out@ == base + spec_json_escape(s@.take(i as int)),
        decreases n - i,
    {
        let c = s[i];
        if c == 34 {
            out.push(92);
            out.push(34);
        } else if c == 92 {
            out.push(92);
            out.push(92);
        } else if c < 32 {
            out.push(92);
            out.push(117);
            out.push(48);
            out.push(48);
            let hi = c >> 4;
            let lo = c & 15;
            proof {
                assert(c >> 4 < 16 && c & 15 < 16) by (bit_vector);
            }
            if hi < 10 {
                out.push(48 + hi);
            } else {
                out.push(87 + hi);
            }
            if lo < 10 {
                out.push(48 + lo);
            } else {
                out.push(87 + lo);
            }
        } else {
            out.push(c);
        }
        proof {
            lemma_escape_snoc(s@, i as int);
            assert(out@ =~= base + spec_json_escape(s@.take(i + 1)));
        }
        i = i + 1;
    }
    proof {
        assert(s@.take(n as int) =~= s@);
    }
}

/// Append a JSON string literal (quotes and escaping) for `s` to `out`.
pub fn push_json_str(out: &mut Vec<u8>, s: &[u8])
    ensures
        final(out)@ == old(out)@ + spec_json_str(s@),
{
    out.push(34);
    json_escape_into(out, s);
    out.push(34);
    proof {
        assert(out@ =~= old(out)@ + spec_json_str(s@));
    }
}

/// The account public JWK, over the 65-byte uncompressed public point.
pub open spec fn spec_jwk_json(pk: Seq<u8>) -> Seq<u8> {
    "{\"alg\":\"ES256\",\"crv\":\"P-256\",\"kty\":\"EC\",\"use\":\"sig\",\"x\":\"".spec_bytes()
        + spec_b64url(pk.subrange(1, 33)) + "\",\"y\":\"".spec_bytes() + spec_b64url(
        pk.subrange(33, 65),
    ) + "\"}".spec_bytes()
}

/// The RFC 7638 thumbprint preimage: required members in lexicographic
/// order, no spaces.
pub open spec fn spec_jwk_thumb_json(pk: Seq<u8>) -> Seq<u8> {
    "{\"crv\":\"P-256\",\"kty\":\"EC\",\"x\":\"".spec_bytes() + spec_b64url(pk.subrange(1, 33))
        + "\",\"y\":\"".spec_bytes() + spec_b64url(pk.subrange(33, 65)) + "\"}".spec_bytes()
}

/// The base64url JWK thumbprint of the account public key.
pub open spec fn spec_thumbprint(pk: Seq<u8>) -> Seq<u8> {
    spec_b64url(sha256_of(spec_jwk_thumb_json(pk)))
}

/// The key authorization digest of a challenge token:
/// `SHA-256(token || "." || thumbprint)`.
pub open spec fn spec_key_auth_digest(token: Seq<u8>, pk: Seq<u8>) -> Seq<u8> {
    sha256_of(token + seq![46u8] + spec_thumbprint(pk))
}

/// The account public JWK, over the 65-byte uncompressed public point.
pub fn jwk_json(pk: &[u8]) -> (r: Vec<u8>)
    requires
        pk@.len() == 65,
    ensures
        r@ == spec_jwk_json(pk@),
{
    let mut out: Vec<u8> = Vec::new();
    out.extend_from_slice("{\"alg\":\"ES256\",\"crv\":\"P-256\",\"kty\":\"EC\",\"use\":\"sig\",\"x\":\"".as_bytes());
    let x = vstd::slice::slice_subrange(pk, 1, 33);
    let mut x64 = b64url(x);
    out.append(&mut x64);
    out.extend_from_slice("\",\"y\":\"".as_bytes());
    let y = vstd::slice::slice_subrange(pk, 33, 65);
    let mut y64 = b64url(y);
    out.append(&mut y64);
    out.extend_from_slice("\"}".as_bytes());
    proof {
        assert(out@ =~= spec_jwk_json(pk@));
    }
    out
}

/// The RFC 7638 thumbprint preimage of the account public key.
fn jwk_thumb_json(pk: &[u8]) -> (r: Vec<u8>)
    requires
        pk@.len() == 65,
    ensures
        r@ == spec_jwk_thumb_json(pk@),
{
    let mut out: Vec<u8> = Vec::new();
    out.extend_from_slice("{\"crv\":\"P-256\",\"kty\":\"EC\",\"x\":\"".as_bytes());
    let x = vstd::slice::slice_subrange(pk, 1, 33);
    let mut x64 = b64url(x);
    out.append(&mut x64);
    out.extend_from_slice("\",\"y\":\"".as_bytes());
    let y = vstd::slice::slice_subrange(pk, 33, 65);
    let mut y64 = b64url(y);
    out.append(&mut y64);
    out.extend_from_slice("\"}".as_bytes());
    proof {
        assert(out@ =~= spec_jwk_thumb_json(pk@));
    }
    out
}

/// The base64url JWK thumbprint of the account public key.
pub fn jwk_thumbprint(pk: &[u8]) -> (r: Vec<u8>)
    requires
        pk@.len() == 65,
    ensures
        r@ == spec_thumbprint(pk@),
{
    let tj = jwk_thumb_json(pk);
    let digest = sha256(tj.as_slice());
    b64url(digest.as_slice())
}

/// The key authorization digest of a challenge token under an account key.
pub fn key_authorization_sha256(token: &[u8], pk: &[u8]) -> (r: Vec<u8>)
    requires
        pk@.len() == 65,
    ensures
        r@ == spec_key_auth_digest(token@, pk@),
        r@.len() == 32,
{
    let mut preimage: Vec<u8> = Vec::new();
    preimage.extend_from_slice(token);
    preimage.push(46);
    let mut thumb = jwk_thumbprint(pk);
    preimage.append(&mut thumb);
    proof {
        assert(preimage@ =~= token@ + seq![46u8] + spec_thumbprint(pk@));
    }
    sha256(preimage.as_slice())
}

/// Independent computations of the key authorization digest over the same
/// token and the same account public key agree bit for bit.
pub proof fn lemma_key_authorization_agreement(
    token1: Seq<u8>,
    token2: Seq<u8>,
    pk1: Seq<u8>,
    pk2: Seq<u8>,
)
    requires
        token1 == token2,
        pk1 == pk2,
    ensures
        spec_key_auth_digest(token1, pk1) == spec_key_auth_digest(token2, pk2),
{
}

/// The flattened JWS JSON body over three base64url fields.
pub open spec fn spec_jws_body(protected64: Seq<u8>, payload64: Seq<u8>, sig64: Seq<u8>) -> Seq<
    u8,
> {
    "{\"protected\":\"".spec_bytes() + protected64 + "\",\"payload\":\"".spec_bytes() + payload64
        + "\",\"signature\":\"".spec_bytes() + sig64 + "\"}".spec_bytes()
}

/// The signing input of a JWS: `protected64 || "." || payload64`.
pub open spec fn spec_signing_input(protected64: Seq<u8>, payload64: Seq<u8>) -> Seq<u8> {
    protected64 + seq![46u8] + payload64
}

/// The protected header of a signed ACME request carrying the full JWK
/// (account creation only).
pub open spec fn spec_protected_jwk(pk: Seq<u8>, nonce: Seq<u8>, url: Seq<u8>) -> Seq<u8> {
    "{\"alg\":\"ES256\",\"jwk\":".spec_bytes() + spec_jwk_json(pk) + ",\"nonce\":".spec_bytes()
        + spec_json_str(nonce) + ",\"url\":".spec_bytes() + spec_json_str(url)
        + "}".spec_bytes()
}

/// The protected header of a signed ACME request carrying the account URL.
pub open spec fn spec_protected_kid(kid: Seq<u8>, nonce: Seq<u8>, url: Seq<u8>) -> Seq<u8> {
    "{\"alg\":\"ES256\",\"kid\":".spec_bytes() + spec_json_str(kid) + ",\"nonce\":".spec_bytes()
        + spec_json_str(nonce) + ",\"url\":".spec_bytes() + spec_json_str(url)
        + "}".spec_bytes()
}

/// The protected header of the external account binding.
pub open spec fn spec_protected_eab(kid: Seq<u8>, url: Seq<u8>) -> Seq<u8> {
    "{\"alg\":\"HS256\",\"kid\":".spec_bytes() + spec_json_str(kid) + ",\"url\":".spec_bytes()
        + spec_json_str(url) + "}".spec_bytes()
}

/// The protected header chosen for a request: the JWK for account creation,
/// the account URL afterwards.
pub open spec fn spec_protected(
    pk: Seq<u8>,
    kid: Option<Seq<u8>>,
    nonce: Seq<u8>,
    url: Seq<u8>,
) -> Seq<u8> {
    match kid {
        None => spec_protected_jwk(pk, nonce, url),
        Some(k) => spec_protected_kid(k, nonce, url),
    }
}

/// The whole signed body of an ACME request, given the 64-byte signature
/// that the key produced.
pub open spec fn spec_signed_body(
    pk: Seq<u8>,
    kid: Option<Seq<u8>>,
    nonce: Seq<u8>,
    url: Seq<u8>,
    payload: Seq<u8>,
    sig: Seq<u8>,
) -> Seq<u8> {
    spec_jws_body(
        spec_b64url(spec_protected(pk, kid, nonce, url)),
        spec_b64url(payload),
        spec_b64url(sig),
    )
}

fn protected_header(pk: &[u8], kid: Option<&String>, nonce: &String, url: &String) -> (r: Vec<
    u8,
>)
    requires
        pk@.len() == 65,
    ensures
        r@ == spec_protected(
            pk@,
            match kid {
                None => None,
                Some(k) => Some(spec_str_bytes(k@)),
            },
            spec_str_bytes(nonce@),
            spec_str_bytes(url@),
        ),
{
    let mut out: Vec<u8> = Vec::new();
    match kid {
        None => {
            out.extend_from_slice("{\"alg\":\"ES256\",\"jwk\":".as_bytes());
            let mut jwk = jwk_json(pk);
            out.append(&mut jwk);
        },
        Some(k) => {
            out.extend_from_slice("{\"alg\":\"ES256\",\"kid\":".as_bytes());
            push_json_str(&mut out, k.as_str().as_bytes());
        },
    }
    out.extend_from_slice(",\"nonce\":".as_bytes());
    push_json_str(&mut out, nonce.as_str().as_bytes());
    out.extend_from_slice(",\"url\":".as_bytes());
    push_json_str(&mut out, url.as_str().as_bytes());
    out.extend_from_slice("}".as_bytes());
    proof {
        match kid {
            None => {
                assert(out@ =~= spec_protected_jwk(
                    pk@,
                    spec_str_bytes(nonce@),
                    spec_str_bytes(url@),
                ));
            },
            Some(k) => {
                assert(out@ =~= spec_protected_kid(
                    spec_str_bytes(k@),
                    spec_str_bytes(nonce@),
                    spec_str_bytes(url@),
                ));
            },
        }
    }
    out
}

/// Assemble the flattened JWS body from its three base64url parts.
fn jws_body(protected64: &Vec<u8>, payload64: &Vec<u8>, sig64: &Vec<u8>) -> (r: Vec<u8>)
    ensures
        r@ == spec_jws_body(protected64@, payload64@, sig64@),
{
    let mut out: Vec<u8> = Vec::new();
    out.extend_from_slice("{\"protected\":\"".as_bytes());
    out.extend_from_slice(protected64.as_slice());
    out.extend_from_slice("\",\"payload\":\"".as_bytes());
    out.extend_from_slice(payload64.as_slice());
    out.extend_from_slice("\",\"signature\":\"".as_bytes());
    out.extend_from_slice(sig64.as_slice());
    out.extend_from_slice("\"}".as_bytes());
    proof {
        assert(out@ =~= spec_jws_body(protected64@, payload64@, sig64@));
    }
    out
}

/// Sign an ACME request with the account key.  The protected header carries
/// the given nonce and the target URL, the JWK or the account URL; the
/// payload is embedded base64url-encoded; some 64-byte ES256 signature
/// covers `protected64.payload64`.
pub fn sign(
    key: &ring::signature::EcdsaKeyPair,
    pk: &Vec<u8>,
    kid: Option<&String>,
    nonce: &String,
    url: &String,
    payload: &[u8],
) -> (r: Result<Vec<u8>, ()>)
    requires
        pk@.len() == 65,
    ensures
        r is Ok ==> exists|sig: Seq<u8>|
            sig.len() == 64 && r.unwrap()@ == spec_signed_body(
                pk@,
                match kid {
                    None => None,
                    Some(k) => Some(spec_str_bytes(k@)),
                },
                spec_str_bytes(nonce@),
                spec_str_bytes(url@),
                payload@,
                sig,
            ),
{
    let protected = protected_header(pk.as_slice(), kid, nonce, url);
    let protected64 = b64url(protected.as_slice());
    let payload64 = b64url(payload);
    let mut msg: Vec<u8> = Vec::new();
    msg.extend_from_slice(protected64.as_slice());
    msg.push(46);
    msg.extend_from_slice(payload64.as_slice());
    let sig = match es256_sign(key, msg.as_slice()) {
        Ok(s) => s,
        Err(_) => {
            return Err(());
        },
    };
    let sig64 = b64url(sig.as_slice());
    let body = jws_body(&protected64, &payload64, &sig64);
    proof {
        assert(body@ == spec_signed_body(
            pk@,
            match kid {
                None => None::<Seq<u8>>,
                Some(k) => Some(spec_str_bytes(k@)),
            },
            spec_str_bytes(nonce@),
            spec_str_bytes(url@),
            payload@,
            sig@,
        ));
    }
    Ok(body)
}

/// The external account binding: an inner JWS whose protected header is
/// `{"alg":"HS256","kid":<eab kid>,"url":<new-account URL>}`, whose payload
/// is the base64url account public JWK, and whose signature is HMAC-SHA256
/// under the external key over `protected64.payload64`.
pub open spec fn spec_eab_body(
    pk: Seq<u8>,
    eab_kid: Seq<u8>,
    eab_key: Seq<u8>,
    url: Seq<u8>,
) -> Seq<u8> {
    spec_jws_body(
        spec_b64url(spec_protected_eab(eab_kid, url)),
        spec_b64url(spec_jwk_json(pk)),
        spec_b64url(
            hmac_sha256_of(
                eab_key,
                spec_signing_input(
                    spec_b64url(spec_protected_eab(eab_kid, url)),
                    spec_b64url(spec_jwk_json(pk)),
                ),
            ),
        ),
    )
}

/// Sign the external account binding with the external HMAC key.
pub fn sign_eab(pk: &Vec<u8>, eab_kid: &String, eab_key: &Vec<u8>, url: &String) -> (r: Vec<u8>)
    requires
        pk@.len() == 65,
    ensures
        r@ == spec_eab_body(
            pk@,
            spec_str_bytes(eab_kid@),
            eab_key@,
            spec_str_bytes(url@),
        ),
{
    let mut protected: Vec<u8> = Vec::new();
    protected.extend_from_slice("{\"alg\":\"HS256\",\"kid\":".as_bytes());
    push_json_str(&mut protected, eab_kid.as_str().as_bytes());
    protected.extend_from_slice(",\"url\":".as_bytes());
    push_json_str(&mut protected, url.as_str().as_bytes());
    protected.extend_from_slice("}".as_bytes());
    proof {
        assert(protected@ =~= spec_protected_eab(
            spec_str_bytes(eab_kid@),
            spec_str_bytes(url@),
        ));
    }
    let protected64 = b64url(protected.as_slice());
    let jwk = jwk_json(pk.as_slice());
    let payload64 = b64url(jwk.as_slice());
    let mut msg: Vec<u8> = Vec::new();
    msg.extend_from_slice(protected64.as_slice());
    msg.push(46);
    msg.extend_from_slice(payload64.as_slice());
    proof {
        assert(msg@ =~= spec_signing_input(protected64@, payload64@));
    }
    let tag = hmac_sha256(eab_key.as_slice(), msg.as_slice());
    let sig64 = b64url(tag.as_slice());
    jws_body(&protected64, &payload64, &sig64)
}

} // verus!
