//! The certificate lifecycle engine.
//!
//! The engine is the decision half of a polled task: the drive around it
//! performs cache reads and writes, network orders and sleeps, and hands
//! each completion back as a plain value; the functions here decide, with
//! exact contracts, what to deploy, what to persist, how long to wait for
//! renewal, and how to back off after a failure.  Every observable
//! transition yields an event.

use vstd::prelude::*;
use crate::config::AcmeConfig;
use crate::crypto::{cert_validity, certified_key_from_parts, ecdsa_key_ok, x509_validity_of};
use crate::order::OrderError;
use crate::pem::{
    pem_parse, spec_parse_pem, spec_blocks_of, spec_pem_block_text, spec_wf_tag,
    lemma_parse_prefixed_bundle,
};
use crate::crypto::spec_private_key_tag;
use crate::pow2;
use crate::backoff_secs;
use rustls::sign::CertifiedKey;
use core::marker::PhantomData;

verus! {

/// Why a persisted or freshly downloaded certificate bundle was rejected.
#[derive(Debug)]
pub enum CertParseError {
    /// The leaf certificate did not parse as X.509.
    X509,
    /// The text is not a well-formed PEM bundle.
    Pem,
    /// Fewer than two PEM blocks; carries how many there were.
    TooFewPem(usize),
    /// The first block is not a supported private key.
    InvalidPrivateKey,
}

/// An observable success of the engine.
#[derive(Copy, Clone, Debug, PartialEq, Eq, Structural)]
pub enum EventOk {
    DeployedCachedCert,
    DeployedNewCert,
    CertCacheStore,
    AccountCacheStore,
}

/// An observable failure of the engine.  `EC` and `EA` are the certificate
/// and account cache error types.
pub enum EventError<EC, EA> {
    CertCacheLoad(EC),
    AccountCacheLoad(EA),
    CertCacheStore(EC),
    AccountCacheStore(EA),
    CachedCertParse(CertParseError),
    Order(OrderError),
    NewCertParse(CertParseError),
}

/// One item of the engine's event stream.
pub type Event<EC, EA> = Result<EventOk, EventError<EC, EA>>;

/// A queued persistence write, reported as an event when it completes.
pub enum EarlyAction {
    /// Store this certificate bundle in the certificate cache.
    StoreCert(Vec<u8>),
    /// Store this PKCS#8 account key in the account cache.
    StoreAccount(Vec<u8>),
}

/// A deployable certificate: the packed key and chain for the resolver and
/// the validity instants read from the leaf.
pub struct DeployedCert {
    pub cert_key: CertifiedKey,
    pub not_before: i64,
    pub not_after: i64,
}

/// A deployable bundle: the text parses as PEM with at least two blocks,
/// the first block is an ECDSA key the signer factory accepts, and the
/// second parses as an X.509 certificate.
pub open spec fn spec_bundle_ok(pem: Seq<u8>) -> bool {
    match spec_parse_pem(pem) {
        None => false,
        Some(bs) => bs.len() >= 2 && ecdsa_key_ok(bs[0].1) && x509_validity_of(bs[1].1) is Some,
    }
}

/// The validity instants of a deployable bundle's leaf certificate.
pub open spec fn spec_bundle_validity(pem: Seq<u8>) -> (i64, i64)
    recommends
        spec_bundle_ok(pem),
{
    x509_validity_of(spec_parse_pem(pem).unwrap()[1].1).unwrap()
}

/// Parse a PEM bundle into a deployable certificate.
///
/// Success is owed exactly on a deployable bundle (`spec_bundle_ok`), and
/// each failure names its stage: not PEM, fewer than two blocks, a key the
/// signer factory rejects, or a leaf that is not X.509.
pub fn parse_cert(pem_bytes: &Vec<u8>) -> (r: Result<DeployedCert, CertParseError>)
    ensures
        r is Ok <==> spec_bundle_ok(pem_bytes@),
        r matches Ok(d) ==> (d.not_before, d.not_after) == spec_bundle_validity(pem_bytes@),
        match spec_parse_pem(pem_bytes@) {
            None => r matches Err(e) && e is Pem,
            Some(bs) => {
                if bs.len() < 2 {
                    r matches Err(e) && (e matches CertParseError::TooFewPem(n) && n == bs.len())
                } else {
                    &&& (r matches Err(e) && e is InvalidPrivateKey) <==> !ecdsa_key_ok(bs[0].1)
                    &&& (r matches Err(e) && e is X509) <==> (ecdsa_key_ok(bs[0].1)
                        && x509_validity_of(bs[1].1) is None)
                }
            },
        },
{
    let blocks = match pem_parse(pem_bytes.as_slice()) {
        Some(blocks) => blocks,
        None => {
            return Err(CertParseError::Pem);
        },
    };
    let n = blocks.len();
    if n < 2 {
        return Err(CertParseError::TooFewPem(n));
    }
    let mut chain: Vec<Vec<u8>> = Vec::new();
    let mut i: usize = 1;
    while i < n
        invariant
            1 <= i <= n,
            n == blocks@.len(),
            chain@.len() == i - 1,
            forall|k: int| 0 <= k < i - 1 ==> chain@[k]@ == blocks@[k + 1].der@,
        decreases n - i,
    {
        chain.push(blocks[i].der.clone());
        i = i + 1;
    }
    let cert_key = match certified_key_from_parts(blocks[0].der.as_slice(), &chain) {
        Ok(k) => k,
        Err(_) => {
            return Err(CertParseError::InvalidPrivateKey);
        },
    };
    match cert_validity(chain[0].as_slice()) {
        Ok((not_before, not_after)) => {
            proof {
                assert(chain@[0]@ == spec_blocks_of(blocks@)[1].1);
            }
            Ok(DeployedCert { cert_key, not_before, not_after })
        },
        Err(_) => Err(CertParseError::X509),
    }
}

/// The renewal wait in whole seconds: until `na - (na - nb) / 3`, never
/// negative, and zero for a degenerate validity with `na < nb`.
pub open spec fn spec_renewal_wait(nb: int, na: int, now: int) -> int {
    if na < nb {
        0
    } else {
        let instant = na - (na - nb) / 3;
        if instant - now < 0 {
            0
        } else {
            instant - now
        }
    }
}

/// For a certificate valid over `[nb, na]`, the scheduled renewal instant
/// is `na - (na - nb) / 3`; the armed wait is exactly the time left until
/// it, clamped at zero once it has passed.
pub proof fn lemma_renewal_policy(nb: int, na: int, now: int)
    requires
        nb <= na,
    ensures
        now <= na - (na - nb) / 3 ==> spec_renewal_wait(nb, na, now) == na - (na - nb) / 3 - now,
        now > na - (na - nb) / 3 ==> spec_renewal_wait(nb, na, now) == 0,
{
}

/// Seconds to sleep before renewing a certificate valid over `[nb, na]`,
/// measured from `now` (Unix seconds).
pub fn renewal_wait(nb: i64, na: i64, now: i64) -> (r: u64)
    ensures
        r == spec_renewal_wait(nb as int, na as int, now as int),
{
    if na < nb {
        return 0;
    }
    let d: i128 = na as i128 - nb as i128;
    let third: u128 = (d as u128) / 3;
    let instant: i128 = na as i128 - third as i128;
    let w: i128 = instant - now as i128;
    if w < 0 {
        0
    } else {
        proof {
            assert(third as int == (na - nb) / 3);
            assert(w <= na - now <= i64::MAX - i64::MIN);
        }
        w as u64
    }
}

/// The engine state.  `EC` and `EA` are the certificate and account cache
/// error types of the configured cache.
pub struct AcmeState<EC, EA> {
    /// The configuration the engine was started with.
    pub config: AcmeConfig,
    /// The account key in PKCS#8 form, once loaded or generated.
    pub account_key: Option<Vec<u8>>,
    /// A queued persistence write, to perform before anything else.
    pub early_action: Option<EarlyAction>,
    /// Startup one-shot: the certificate cache has not been read yet.
    pub load_cert_pending: bool,
    /// Startup one-shot: the account cache has not been read yet.
    pub load_account_pending: bool,
    /// An order is in flight.
    pub order_in_flight: bool,
    /// Consecutive order failures, capped at 16.
    pub backoff_cnt: usize,
    /// An armed sleep in whole seconds, if any.
    pub wait_secs: Option<u64>,
    pub cache_errors: PhantomData<(EC, EA)>,
}

impl<EC, EA> AcmeState<EC, EA> {
    /// Well-formed: the failure count never exceeds its cap.
    pub open spec fn wf(&self) -> bool {
        self.backoff_cnt <= 16
    }

    /// A fresh engine: both startup cache reads pending, nothing in flight,
    /// no failures recorded.
    pub fn new(config: AcmeConfig) -> (r: Self)
        ensures
            r.wf(),
            r.config == config,
            r.account_key is None,
            r.early_action is None,
            r.load_cert_pending,
            r.load_account_pending,
            !r.order_in_flight,
            r.backoff_cnt == 0,
            r.wait_secs is None,
    {
        AcmeState {
            config,
            account_key: None,
            early_action: None,
            load_cert_pending: true,
            load_account_pending: true,
            order_in_flight: false,
            backoff_cnt: 0,
            wait_secs: None,
            cache_errors: PhantomData,
        }
    }

    /// Deploy a parsed bundle: arm the renewal timer from the leaf validity
    /// and, for a fresh certificate, queue the cache store.  Returns the
    /// event and, on success, the key for the resolver.  Deployment happens
    /// exactly on a deployable bundle, and what is deployed is that
    /// bundle's leaf validity.
    pub fn process_cert(&mut self, pem_bytes: Vec<u8>, cached: bool, now: i64) -> (r: (
        Event<EC, EA>,
        Option<DeployedCert>,
    ))
        requires
            old(self).wf(),
        ensures
            final(self).wf(),
            final(self).config == old(self).config,
            final(self).account_key == old(self).account_key,
            final(self).load_cert_pending == old(self).load_cert_pending,
            final(self).load_account_pending == old(self).load_account_pending,
            final(self).order_in_flight == old(self).order_in_flight,
            final(self).backoff_cnt == old(self).backoff_cnt,
            r.1 is Some <==> spec_bundle_ok(pem_bytes@),
            match r.1 {
                Some(d) => {
                    &&& (d.not_before, d.not_after) == spec_bundle_validity(pem_bytes@)
                    &&& r.0 == Ok::<EventOk, EventError<EC, EA>>(
                        if cached {
                            EventOk::DeployedCachedCert
                        } else {
                            EventOk::DeployedNewCert
                        },
                    )
                    &&& final(self).wait_secs == Some(
                        spec_renewal_wait(
                            d.not_before as int,
                            d.not_after as int,
                            now as int,
                        ) as u64,
                    )
                    &&& cached ==> final(self).early_action == old(self).early_action
                    &&& !cached ==> final(self).early_action == Some(
                        EarlyAction::StoreCert(pem_bytes),
                    )
                },
                None => {
                    &&& r.0 matches Err(e) && (match e {
                        EventError::CachedCertParse(_) => cached,
                        EventError::NewCertParse(_) => !cached,
                        _ => false,
                    })
                    &&& final(self).wait_secs == old(self).wait_secs
                    &&& final(self).early_action == old(self).early_action
                },
            },
    {
        let parsed = match parse_cert(&pem_bytes) {
            Ok(p) => p,
            Err(e) => {
                if cached {
                    return (Err(EventError::CachedCertParse(e)), None);
                } else {
                    return (Err(EventError::NewCertParse(e)), None);
                }
            },
        };
        let wait = renewal_wait(parsed.not_before, parsed.not_after, now);
        self.wait_secs = Some(wait);
        if cached {
            (Ok(EventOk::DeployedCachedCert), Some(parsed))
        } else {
            self.early_action = Some(EarlyAction::StoreCert(pem_bytes));
            (Ok(EventOk::DeployedNewCert), Some(parsed))
        }
    }

    /// The startup certificate-cache read finished.  A deployable hit is
    /// deployed as a cached certificate with its renewal timer armed; a
    /// corrupt hit is a parse event and the engine goes on as if the cache
    /// were empty; so does a miss (silently) or a cache failure (with its
    /// event).
    pub fn on_cert_load_result(&mut self, r: Result<Option<Vec<u8>>, EC>, now: i64) -> (out: (
        Option<Event<EC, EA>>,
        Option<DeployedCert>,
    ))
        requires
            old(self).wf(),
            old(self).load_cert_pending,
        ensures
            final(self).wf(),
            !final(self).load_cert_pending,
            final(self).account_key == old(self).account_key,
            final(self).backoff_cnt == old(self).backoff_cnt,
            final(self).order_in_flight == old(self).order_in_flight,
            match r {
                Ok(Some(pem)) => {
                    &&& out.1 is Some <==> spec_bundle_ok(pem@)
                    &&& match out.1 {
                        Some(d) => {
                            &&& (d.not_before, d.not_after) == spec_bundle_validity(pem@)
                            &&& out.0 == Some(
                                Ok::<EventOk, EventError<EC, EA>>(EventOk::DeployedCachedCert),
                            )
                            &&& final(self).wait_secs == Some(
                                spec_renewal_wait(
                                    d.not_before as int,
                                    d.not_after as int,
                                    now as int,
                                ) as u64,
                            )
                        },
                        None => {
                            &&& (out.0 matches Some(ev) && ev matches Err(
                                EventError::CachedCertParse(_),
                            ))
                            &&& final(self).wait_secs == old(self).wait_secs
                        },
                    }
                    &&& final(self).early_action == old(self).early_action
                },
                Ok(None) => out.0 is None && out.1 is None && final(self).wait_secs == old(
                    self,
                ).wait_secs && final(self).early_action == old(self).early_action,
                Err(e) => (out.0 matches Some(ev) && ev matches Err(
                    EventError::CertCacheLoad(e2),
                ) && e2 == e) && out.1 is None && final(self).wait_secs == old(self).wait_secs
                    && final(self).early_action == old(self).early_action,
            },
    {
        self.load_cert_pending = false;
        match r {
            Ok(Some(pem_bytes)) => {
                let (ev, key) = self.process_cert(pem_bytes, true, now);
                (Some(ev), key)
            },
            Ok(None) => (None, None),
            Err(e) => (Some(Err(EventError::CertCacheLoad(e))), None),
        }
    }

    /// The startup account-cache read finished.  A hit adopts the key pair;
    /// a miss falls through; a cache failure is an event.
    pub fn on_account_load_result(&mut self, r: Result<Option<Vec<u8>>, EA>) -> (out: Option<
        Event<EC, EA>,
    >)
        requires
            old(self).wf(),
            old(self).load_account_pending,
        ensures
            final(self).wf(),
            !final(self).load_account_pending,
            final(self).backoff_cnt == old(self).backoff_cnt,
            final(self).wait_secs == old(self).wait_secs,
            final(self).early_action == old(self).early_action,
            match r {
                Ok(Some(key)) => final(self).account_key == Some(key) && out is None,
                Ok(None) => final(self).account_key == old(self).account_key && out is None,
                Err(e) => final(self).account_key == old(self).account_key && (out matches Some(
                    ev,
                ) && ev matches Err(EventError::AccountCacheLoad(e2)) && e2 == e),
            },
    {
        self.load_account_pending = false;
        match r {
            Ok(Some(key)) => {
                self.account_key = Some(key);
                None
            },
            Ok(None) => None,
            Err(e) => Some(Err(EventError::AccountCacheLoad(e))),
        }
    }

    /// The order in flight finished.  Success resets the failure count and
    /// deploys the fresh bundle — exactly when it is deployable — queueing
    /// it for the certificate cache and arming its renewal timer; failure
    /// arms an exponential backoff sleep of `2^min(n, 16)` seconds, where
    /// `n` counts the consecutive failures before this one.
    pub fn on_order_result(&mut self, r: Result<Vec<u8>, OrderError>, now: i64) -> (out: (
        Event<EC, EA>,
        Option<DeployedCert>,
    ))
        requires
            old(self).wf(),
            old(self).order_in_flight,
        ensures
            final(self).wf(),
            !final(self).order_in_flight,
            match r {
                Ok(pem) => {
                    &&& final(self).backoff_cnt == 0
                    &&& final(self).account_key == old(self).account_key
                    &&& out.1 is Some <==> spec_bundle_ok(pem@)
                    &&& match out.1 {
                        Some(d) => {
                            &&& (d.not_before, d.not_after) == spec_bundle_validity(pem@)
                            &&& out.0 == Ok::<EventOk, EventError<EC, EA>>(
                                EventOk::DeployedNewCert,
                            )
                            &&& final(self).wait_secs == Some(
                                spec_renewal_wait(
                                    d.not_before as int,
                                    d.not_after as int,
                                    now as int,
                                ) as u64,
                            )
                            &&& final(self).early_action == Some(EarlyAction::StoreCert(pem))
                        },
                        None => {
                            &&& (out.0 matches Err(ev) && ev matches EventError::NewCertParse(_))
                            &&& final(self).wait_secs == old(self).wait_secs
                            &&& final(self).early_action == old(self).early_action
                        },
                    }
                },
                Err(e) => {
                    &&& (out.0 matches Err(ev) && (ev matches EventError::Order(e2) && e2 == e))
                    &&& out.1 is None
                    &&& final(self).wait_secs == Some(pow2(old(self).backoff_cnt as nat) as u64)
                    &&& final(self).backoff_cnt == spec_backoff_step(old(self).backoff_cnt as nat)
                    &&& final(self).early_action == old(self).early_action
                    &&& final(self).account_key == old(self).account_key
                },
            },
    {
        self.order_in_flight = false;
        match r {
            Ok(pem_bytes) => {
                self.backoff_cnt = 0;
                self.process_cert(pem_bytes, false, now)
            },
            Err(e) => {
                let s = backoff_secs(self.backoff_cnt);
                self.wait_secs = Some(s);
                if self.backoff_cnt < 16 {
                    self.backoff_cnt = self.backoff_cnt + 1;
                }
                (Err(EventError::Order(e)), None)
            },
        }
    }

    /// Schedule the next order.  Without an account key a fresh one is
    /// generated, adopted, and queued for the account cache; the returned
    /// key is what the order must use.
    pub fn schedule_order(&mut self) -> (key: Vec<u8>)
        requires
            old(self).wf(),
            !old(self).order_in_flight,
        ensures
            final(self).wf(),
            final(self).order_in_flight,
            final(self).account_key matches Some(k) && k@ == key@,
            final(self).backoff_cnt == old(self).backoff_cnt,
            final(self).wait_secs == old(self).wait_secs,
            match old(self).account_key {
                Some(k0) => key@ == k0@ && final(self).early_action == old(self).early_action,
                None => final(self).early_action matches Some(a) && (a
                    matches EarlyAction::StoreAccount(k2) && k2@ == key@),
            },
    {
        let key: Vec<u8> = match &self.account_key {
            Some(k) => {
                let c = k.clone();
                proof {
                    assert(c@ =~= k@);
                }
                c
            },
            None => {
                let fresh = crate::acme::Account::generate_key_pair();
                let c1 = fresh.clone();
                let c2 = fresh.clone();
                proof {
                    assert(c1@ =~= fresh@);
                    assert(c2@ =~= fresh@);
                }
                self.account_key = Some(c1);
                self.early_action = Some(EarlyAction::StoreAccount(c2));
                fresh
            },
        };
        self.order_in_flight = true;
        key
    }

    /// Take the queued persistence write, if any, to perform it.
    pub fn take_early_action(&mut self) -> (r: Option<EarlyAction>)
        ensures
            *final(self) == (AcmeState { early_action: None, ..*old(self) }),
            r == old(self).early_action,
    {
        self.early_action.take()
    }

    /// Take the armed sleep, if any, to perform it.
    pub fn take_wait(&mut self) -> (r: Option<u64>)
        ensures
            *final(self) == (AcmeState { wait_secs: None, ..*old(self) }),
            r == old(self).wait_secs,
    {
        self.wait_secs.take()
    }

    /// The queued certificate store finished; the just-deployed certificate
    /// stays deployed either way.
    pub fn cert_store_done(&self, r: Result<(), EC>) -> (ev: Event<EC, EA>)
        ensures
            match r {
                Ok(_) => ev == Ok::<EventOk, EventError<EC, EA>>(EventOk::CertCacheStore),
                Err(e) => ev matches Err(e2) && (e2 matches EventError::CertCacheStore(e3) && e3
                    == e),
            },
    {
        match r {
            Ok(_) => Ok(EventOk::CertCacheStore),
            Err(e) => Err(EventError::CertCacheStore(e)),
        }
    }

    /// The queued account store finished.
    pub fn account_store_done(&self, r: Result<(), EA>) -> (ev: Event<EC, EA>)
        ensures
            match r {
                Ok(_) => ev == Ok::<EventOk, EventError<EC, EA>>(EventOk::AccountCacheStore),
                Err(e) => ev matches Err(e2) && (e2 matches EventError::AccountCacheStore(e3) && e3
                    == e),
            },
    {
        match r {
            Ok(_) => Ok(EventOk::AccountCacheStore),
            Err(e) => Err(EventError::AccountCacheStore(e)),
        }
    }
}

/// The failure counter after one more failure: it steps up and caps at 16,
/// as `on_order_result` leaves it.
pub open spec fn spec_backoff_step(cnt: nat) -> nat {
    if cnt + 1 <= 16 {
        cnt + 1
    } else {
        16
    }
}

/// The failure counter after `n` consecutive failures from a fresh start.
pub open spec fn spec_backoff_after(n: nat) -> nat
    decreases n,
{
    if n == 0 {
        0
    } else {
        spec_backoff_step(spec_backoff_after((n - 1) as nat))
    }
}

/// After `n` consecutive order failures the counter holds `min(n, 16)`, so
/// the sleep `on_order_result` arms on the next failure is `2^min(n, 16)`
/// seconds.
pub proof fn lemma_backoff_policy(n: nat)
    ensures
        spec_backoff_after(n) == if n <= 16 {
            n
        } else {
            16
        },
        pow2(spec_backoff_after(n)) == pow2(
            if n <= 16 {
                n
            } else {
                16 as nat
            },
        ),
    decreases n,
{
    if n > 0 {
        lemma_backoff_policy((n - 1) as nat);
    }
}

/// Every successful order emits a bundle whose text parses back to the leaf
/// private key block first, followed by the downloaded chain's blocks: at
/// least two blocks whenever the chain text holds at least one.
pub proof fn lemma_emitted_bundle_blocks(key_der: Seq<u8>, cert_text: Seq<u8>, cbs: Seq<(
    Seq<u8>,
    Seq<u8>,
)>)
    requires
        spec_parse_pem(cert_text) == Some(cbs),
    ensures
        spec_parse_pem(
            spec_pem_block_text(spec_private_key_tag(), key_der) + seq![10u8] + cert_text,
        ) == Some(seq![(spec_private_key_tag(), key_der)] + cbs),
        (seq![(spec_private_key_tag(), key_der)] + cbs).len() == 1 + cbs.len(),
        (seq![(spec_private_key_tag(), key_der)] + cbs)[0].0 == spec_private_key_tag(),
{
    assert(spec_wf_tag(spec_private_key_tag()));
    lemma_parse_prefixed_bundle(spec_private_key_tag(), key_der, cert_text);
}

} // verus!
