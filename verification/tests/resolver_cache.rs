//! Resolver routing, cache key derivation, the cache contract round trip,
//! configuration and header helpers.

use std::cell::RefCell;
use std::collections::HashMap;

use base64::Engine;
use tokio_rustls_acme::acme::{get_header, require_location};
use tokio_rustls_acme::cache::{AccountCache, CertCache};
use tokio_rustls_acme::caches::composite::CompositeCache;
use tokio_rustls_acme::caches::dir::{canonical_bytes, DirCache};
use tokio_rustls_acme::caches::no::NoCache;
use tokio_rustls_acme::config::AcmeConfig;
use tokio_rustls_acme::resolver::{CertResolver, ClientHelloInfo, is_challenge_hello};

fn challenge_hello(sni: &str) -> ClientHelloInfo {
    ClientHelloInfo {
        sni: Some(sni.to_string()),
        alpn: vec![b"acme-tls/1".to_vec()],
    }
}

fn production_hello(sni: &str) -> ClientHelloInfo {
    ClientHelloInfo {
        sni: Some(sni.to_string()),
        alpn: vec![b"h2".to_vec(), b"http/1.1".to_vec()],
    }
}

#[test]
fn alpn_detection_is_exact() {
    assert!(is_challenge_hello(&challenge_hello("example.test")));
    assert!(!is_challenge_hello(&production_hello("example.test")));
    // a list that merely contains the protocol is not a challenge
    let mixed = ClientHelloInfo {
        sni: None,
        alpn: vec![b"acme-tls/1".to_vec(), b"h2".to_vec()],
    };
    assert!(!is_challenge_hello(&mixed));
}

#[test]
fn resolver_routes_challenge_and_production() {
    let mut resolver: CertResolver<u64> = CertResolver::new();
    // nothing deployed yet
    assert!(resolver.resolve(&production_hello("example.test")).is_none());

    resolver.set_auth_key("example.test".to_string(), 7);
    // a challenge hello for the domain sees the validation key
    assert_eq!(resolver.resolve(&challenge_hello("example.test")), Some(&7));
    // another domain falls through to the (absent) live key
    assert!(resolver.resolve(&challenge_hello("other.test")).is_none());
    // a production hello never sees the validation key
    assert!(resolver.resolve(&production_hello("example.test")).is_none());

    resolver.set_cert(9);
    // deployment removed the validation keys: the challenge hello now sees
    // the live key
    assert_eq!(resolver.resolve(&challenge_hello("example.test")), Some(&9));
    assert_eq!(resolver.resolve(&production_hello("example.test")), Some(&9));

    // republishing after deployment works, and overwriting replaces
    resolver.set_auth_key("example.test".to_string(), 11);
    resolver.set_auth_key("example.test".to_string(), 12);
    assert_eq!(resolver.resolve(&challenge_hello("example.test")), Some(&12));
    assert_eq!(resolver.resolve(&production_hello("example.test")), Some(&9));
}

#[test]
fn cache_names_are_deterministic_and_order_sensitive() {
    let url = "https://ca.test/dir".to_string();
    let ab = vec!["a.test".to_string(), "b.test".to_string()];
    let ba = vec!["b.test".to_string(), "a.test".to_string()];
    let n1 = DirCache::cached_cert_file_name(&ab, &url);
    let n2 = DirCache::cached_cert_file_name(&ab, &url);
    let n3 = DirCache::cached_cert_file_name(&ba, &url);
    assert_eq!(n1, n2);
    assert_ne!(n1, n3);
    assert!(n1.starts_with("cached_cert_"));
    let a1 = DirCache::cached_account_file_name(&ab, &url);
    assert!(a1.starts_with("cached_account_"));
    // the two kinds differ by their prefix over the same digest
    assert_ne!(n1, a1);

    // the derivation tells item lists apart only while items hold no zero
    // byte (DNS names and contact URIs never do): an embedded zero byte
    // reproduces the separator and collides
    let split = vec!["a".to_string(), "test".to_string()];
    let joined = vec!["a\u{0}test".to_string()];
    assert_eq!(
        DirCache::cached_cert_file_name(&split, &url),
        DirCache::cached_cert_file_name(&joined, &url)
    );
}

#[test]
fn cache_name_matches_known_digest() {
    // with no items the canonical string is the URL itself; SHA-256("abc")
    // is the standard test vector
    let digest: [u8; 32] = [
        0xba, 0x78, 0x16, 0xbf, 0x8f, 0x01, 0xcf, 0xea, 0x41, 0x41, 0x40, 0xde, 0x5d, 0xae,
        0x22, 0x23, 0xb0, 0x03, 0x61, 0xa3, 0x96, 0x17, 0x7a, 0x9c, 0xb4, 0x10, 0xff, 0x61,
        0xf2, 0x00, 0x15, 0xad,
    ];
    let expected = format!(
        "cached_account_{}",
        base64::engine::general_purpose::URL_SAFE_NO_PAD.encode(digest)
    );
    let name = DirCache::cached_account_file_name(&Vec::new(), &"abc".to_string());
    assert_eq!(name, expected);
}

#[test]
fn canonical_bytes_terminate_each_item() {
    let bytes = canonical_bytes(
        &vec!["ab".to_string(), "c".to_string()],
        &"urlpart".to_string(),
    );
    assert_eq!(bytes, b"ab\0c\0urlpart".to_vec());
}

/// An in-memory cache keyed by the directory-cache file names.
struct MemCache {
    slots: RefCell<HashMap<String, Vec<u8>>>,
}

impl MemCache {
    fn new() -> Self {
        MemCache { slots: RefCell::new(HashMap::new()) }
    }
}

impl CertCache for MemCache {
    type EC = String;

    fn load_cert(
        &self,
        domains: &Vec<String>,
        directory_url: &String,
    ) -> Result<Option<Vec<u8>>, String> {
        let name = DirCache::cached_cert_file_name(domains, directory_url);
        Ok(self.slots.borrow().get(&name).cloned())
    }

    fn store_cert(
        &self,
        domains: &Vec<String>,
        directory_url: &String,
        cert: &Vec<u8>,
    ) -> Result<(), String> {
        let name = DirCache::cached_cert_file_name(domains, directory_url);
        self.slots.borrow_mut().insert(name, cert.clone());
        Ok(())
    }
}

impl AccountCache for MemCache {
    type EA = String;

    fn load_account(
        &self,
        contact: &Vec<String>,
        directory_url: &String,
    ) -> Result<Option<Vec<u8>>, String> {
        let name = DirCache::cached_account_file_name(contact, directory_url);
        Ok(self.slots.borrow().get(&name).cloned())
    }

    fn store_account(
        &self,
        contact: &Vec<String>,
        directory_url: &String,
        account: &Vec<u8>,
    ) -> Result<(), String> {
        let name = DirCache::cached_account_file_name(contact, directory_url);
        self.slots.borrow_mut().insert(name, account.clone());
        Ok(())
    }
}

#[test]
fn cache_round_trip() {
    let cache = MemCache::new();
    let url = "https://ca.test/dir".to_string();
    let domains = vec!["example.test".to_string()];
    // no prior store: a miss
    assert_eq!(cache.load_cert(&domains, &url), Ok(None));
    cache.store_cert(&domains, &url, &b"bundle-bytes".to_vec()).unwrap();
    assert_eq!(
        cache.load_cert(&domains, &url),
        Ok(Some(b"bundle-bytes".to_vec()))
    );
    // a different configuration is a different slot
    let other = vec!["other.test".to_string()];
    assert_eq!(cache.load_cert(&other, &url), Ok(None));
}

#[test]
fn composite_cache_splits_halves() {
    let cache = CompositeCache::new(MemCache::new(), MemCache::new());
    let url = "https://ca.test/dir".to_string();
    let names = vec!["example.test".to_string()];
    cache.store_cert(&names, &url, &b"cert".to_vec()).unwrap();
    cache.store_account(&names, &url, &b"account".to_vec()).unwrap();
    assert_eq!(cache.load_cert(&names, &url), Ok(Some(b"cert".to_vec())));
    assert_eq!(
        cache.load_account(&names, &url),
        Ok(Some(b"account".to_vec()))
    );
    let (certs, accounts) = cache.into_inner();
    assert_eq!(certs.load_cert(&names, &url), Ok(Some(b"cert".to_vec())));
    assert_eq!(
        accounts.load_account(&names, &url),
        Ok(Some(b"account".to_vec()))
    );
}

#[test]
fn no_cache_stores_nothing() {
    let cache: NoCache<String, String> = NoCache::new();
    let url = "https://ca.test/dir".to_string();
    let names = vec!["example.test".to_string()];
    cache.store_cert(&names, &url, &b"cert".to_vec()).unwrap();
    assert_eq!(cache.load_cert(&names, &url), Ok(None));
    cache.store_account(&names, &url, &b"account".to_vec()).unwrap();
    assert_eq!(cache.load_account(&names, &url), Ok(None));
}

#[test]
fn config_builders_accumulate() {
    let config = AcmeConfig::new(vec!["a.test".to_string()])
        .domains_push("b.test".to_string())
        .contact_push("mailto:one@a.test".to_string())
        .contact_push("mailto:two@a.test".to_string());
    assert_eq!(config.domains, vec!["a.test".to_string(), "b.test".to_string()]);
    assert_eq!(config.contact.len(), 2);
    assert_eq!(
        config.directory_url,
        "https://acme-staging-v02.api.letsencrypt.org/directory"
    );
    let config = config.directory_lets_encrypt(true);
    assert_eq!(
        config.directory_url,
        "https://acme-v02.api.letsencrypt.org/directory"
    );
    let config = config.directory("https://pebble.test/dir".to_string());
    assert_eq!(config.directory_url, "https://pebble.test/dir");
    assert!(config.eab.is_none());
    let config = config.external_account_binding("test-kid".to_string(), &[1, 2, 3]);
    let eab = config.eab.as_ref().unwrap();
    assert_eq!(eab.kid, "test-kid");
    assert_eq!(eab.key, vec![1, 2, 3]);
}

#[test]
fn get_header_takes_last_match() {
    let headers = vec![
        ("replay-nonce".to_string(), "first".to_string()),
        ("content-type".to_string(), "application/json".to_string()),
        ("replay-nonce".to_string(), "second".to_string()),
    ];
    let v = get_header(&headers, &"replay-nonce".to_string()).unwrap();
    assert_eq!(v, "second");
    let r = get_header(&headers, &"location".to_string());
    match r {
        Err(tokio_rustls_acme::acme::AcmeError::MissingHeader(name)) => {
            assert_eq!(name, "location")
        },
        _ => panic!("expected a missing header"),
    }
}

#[test]
fn location_is_required() {
    assert_eq!(
        require_location(Some("https://ca.test/acct/1".to_string())).unwrap(),
        "https://ca.test/acct/1"
    );
    let r = require_location(None);
    assert!(matches!(
        r,
        Err(tokio_rustls_acme::acme::AcmeError::MissingHeader(_))
    ));
}
