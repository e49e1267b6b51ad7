//! Order execution as a state machine.
//!
//! The network drive — discovery, account creation, posting, polling — runs
//! outside the library; each answer comes back as a plain value, and the
//! functions here decide the next action exactly: which payload to post,
//! how long to sleep, when an order or an authorization has failed.

use vstd::prelude::*;
use crate::acme::{
    AcmeError, Auth, AuthStatus, Identifier, Order, OrderStatus, Account,
    spec_finalize_payload, finalize_payload, spec_alpn_index,
};
use crate::crypto::{order_key_and_csr, spec_private_key_tag};
use crate::pem::spec_pem_block_text;
use crate::pow2;
use crate::backoff_secs;
use rustls::sign::CertifiedKey;

verus! {

/// Why an order attempt failed.
#[derive(Debug)]
pub enum OrderError {
    /// A protocol or transport failure.
    Acme(AcmeError),
    /// Generating the order key pair or the CSR failed.
    Rcgen,
    /// The order reached the `invalid` state.
    BadOrder(Order),
    /// An authorization reached a state the client cannot drive further.
    BadAuth(Auth),
    /// An authorization stayed pending through every allowed attempt;
    /// carries the domain.
    TooManyAttemptsAuth(String),
    /// The order stayed `processing` through every allowed poll.
    ProcessingTimeout(Order),
}

/// How many times a `processing` order is re-polled before giving up.
pub open spec fn spec_processing_poll_limit() -> u8 {
    10
}

/// How many times a pending authorization is re-checked before giving up.
pub open spec fn spec_auth_attempt_limit() -> u8 {
    5
}

/// The next action the order drive must perform.
pub enum OrderAction {
    /// The order is pending: drive each of these authorizations to `valid`,
    /// then fetch the order again.
    Authorize(Vec<String>),
    /// The order is processing: sleep this many seconds, then fetch the
    /// order again.
    PollAfter(u64),
    /// The order is ready: post this payload to this finalize URL.
    Finalize { url: String, payload: Vec<u8> },
    /// The order is valid: download the certificate chain at this URL.
    Download(String),
}

/// One order attempt in flight: the fresh leaf key and CSR, the order URL,
/// and how many `processing` polls have happened.
pub struct OrderRun {
    pub csr_der: Vec<u8>,
    pub key_der: Vec<u8>,
    pub key_pem: Vec<u8>,
    pub order_url: String,
    pub processing_polls: u8,
}

impl OrderRun {
    /// Well-formed: the key PEM is exactly the one `PRIVATE KEY` block over
    /// the key DER, and the poll counter is within its limit.
    pub open spec fn wf(&self) -> bool {
        &&& self.key_pem@ == spec_pem_block_text(spec_private_key_tag(), self.key_der@)
        &&& self.processing_polls <= spec_processing_poll_limit()
    }

    /// Start an order attempt: generate the leaf key pair and the CSR for
    /// the domain list.
    pub fn start(domains: &Vec<String>, order_url: String) -> (r: Result<OrderRun, OrderError>)
        ensures
            r matches Ok(run) ==> run.wf() && run.order_url@ == order_url@
                && run.processing_polls == 0,
            r matches Err(e) ==> e is Rcgen,
    {
        match order_key_and_csr(domains) {
            Ok((csr_der, key_der, key_pem)) => Ok(
                OrderRun { csr_der, key_der, key_pem, order_url, processing_polls: 0 },
            ),
            Err(_) => Err(OrderError::Rcgen),
        }
    }

    /// Decide the next action from the order's current state.
    ///
    /// `pending` asks for its authorizations to be driven; `processing`
    /// sleeps `2^i` seconds on the i-th poll and fails with
    /// `ProcessingTimeout` once the limit is reached; `ready` finalizes with
    /// the CSR payload; `valid` downloads the certificate; `invalid` fails
    /// with `BadOrder`.
    pub fn order_step(&mut self, order: Order) -> (r: Result<OrderAction, OrderError>)
        requires
            old(self).wf(),
        ensures
            final(self).wf(),
            final(self).csr_der == old(self).csr_der,
            final(self).key_der == old(self).key_der,
            final(self).key_pem == old(self).key_pem,
            final(self).order_url == old(self).order_url,
            match order.status {
                OrderStatus::Pending => r matches Ok(a) && a matches OrderAction::Authorize(urls)
                    && urls == order.authorizations && final(self).processing_polls == 0,
                OrderStatus::Processing => {
                    if old(self).processing_polls < spec_processing_poll_limit() {
                        &&& r matches Ok(a)
                        &&& a matches OrderAction::PollAfter(s)
                        &&& s == pow2(old(self).processing_polls as nat)
                        &&& final(self).processing_polls == old(self).processing_polls + 1
                    } else {
                        &&& r matches Err(e)
                        &&& e matches OrderError::ProcessingTimeout(o)
                        &&& o == order
                    }
                },
                OrderStatus::Ready => r matches Ok(a) && (a matches OrderAction::Finalize {
                    url,
                    payload,
                } && url@ == order.finalize@ && payload@ == spec_finalize_payload(
                    old(self).csr_der@,
                )) && final(self).processing_polls == 0,
                OrderStatus::Valid { certificate } => r matches Ok(a) && (a
                    matches OrderAction::Download(u) && u@ == certificate@)
                    && final(self).processing_polls == 0,
                OrderStatus::Invalid => r matches Err(e) && (e matches OrderError::BadOrder(o) && o
                    == order),
            },
    {
        match order.status {
            OrderStatus::Pending => {
                self.processing_polls = 0;
                let urls = order.authorizations;
                Ok(OrderAction::Authorize(urls))
            },
            OrderStatus::Processing => {
                if self.processing_polls < 10 {
                    let s = backoff_secs(self.processing_polls as usize);
                    self.processing_polls = self.processing_polls + 1;
                    Ok(OrderAction::PollAfter(s))
                } else {
                    Err(OrderError::ProcessingTimeout(order))
                }
            },
            OrderStatus::Ready => {
                self.processing_polls = 0;
                let payload = finalize_payload(&self.csr_der);
                let url = order.finalize;
                Ok(OrderAction::Finalize { url, payload })
            },
            OrderStatus::Valid { certificate } => {
                self.processing_polls = 0;
                Ok(OrderAction::Download(certificate))
            },
            OrderStatus::Invalid => Err(OrderError::BadOrder(order)),
        }
    }

    /// The bundle an order emits: the leaf key PEM, one LF, then the
    /// downloaded certificate chain text.
    pub fn assemble_bundle(&self, certificate_pem: &Vec<u8>) -> (r: Vec<u8>)
        ensures
            r@ == self.key_pem@ + seq![10u8] + certificate_pem@,
    {
        let mut out: Vec<u8> = Vec::new();
        out.extend_from_slice(self.key_pem.as_slice());
        out.push(10);
        out.extend_from_slice(certificate_pem.as_slice());
        proof {
            assert(out@ =~= self.key_pem@ + seq![10u8] + certificate_pem@);
        }
        out
    }
}

/// What beginning an authorization asks the drive to do.
pub enum AuthBegin {
    /// The authorization is already valid: nothing to do.
    AlreadyValid,
    /// Install the validation key for the domain in the resolver, post to
    /// the challenge URL, and start polling.
    Trigger { domain: String, challenge_url: String, cert_key: CertifiedKey },
}

/// Decide how to begin an authorization from its fetched state: `valid` is
/// done; `pending` yields the TLS-ALPN-01 validation material for its DNS
/// identifier and the challenge to trigger; everything else is `BadAuth`.
pub fn begin_auth(account: &Account, auth: Auth) -> (r: Result<AuthBegin, OrderError>)
    requires
        account.wf(),
    ensures
        match auth.status {
            AuthStatus::Valid => r matches Ok(b) && b is AlreadyValid,
            AuthStatus::Pending => {
                &&& r matches Ok(b) ==> (b matches AuthBegin::Trigger {
                    domain,
                    challenge_url,
                    cert_key,
                } && (auth.identifier matches Identifier::Dns(d) && domain@ == d@)
                    && 0 <= spec_alpn_index(auth.challenges@) && challenge_url@
                    == auth.challenges@[spec_alpn_index(auth.challenges@)].url@)
                &&& r matches Err(e) ==> (e matches OrderError::Acme(a) && (
                a is NoTlsAlpn01Challenge || a is Rcgen) && (a is NoTlsAlpn01Challenge
                    <==> spec_alpn_index(auth.challenges@) < 0))
            },
            _ => r matches Err(e) && (e matches OrderError::BadAuth(a) && a == auth),
        },
{
    match auth.status {
        AuthStatus::Valid => Ok(AuthBegin::AlreadyValid),
        AuthStatus::Pending => {
            let Auth { status, identifier, challenges } = auth;
            let domain = match &identifier {
                Identifier::Dns(d) => d.clone(),
            };
            match account.tls_alpn_01(&challenges, domain.clone()) {
                Ok((challenge, cert_key)) => {
                    let challenge_url = challenge.url.clone();
                    Ok(AuthBegin::Trigger { domain, challenge_url, cert_key })
                },
                Err(e) => Err(OrderError::Acme(e)),
            }
        },
        _ => Err(OrderError::BadAuth(auth)),
    }
}

/// One authorization being polled: its domain and how many checks happened.
pub struct AuthAttempt {
    pub domain: String,
    pub attempts: u8,
}

impl AuthAttempt {
    /// Well-formed: the counter is within its limit.
    pub open spec fn wf(&self) -> bool {
        self.attempts <= spec_auth_attempt_limit()
    }

    /// A fresh attempt counter for a domain.
    pub fn new(domain: String) -> (r: AuthAttempt)
        ensures
            r.wf(),
            r.domain@ == domain@,
            r.attempts == 0,
    {
        AuthAttempt { domain, attempts: 0 }
    }

    /// Before each authorization check: sleep `2^i` seconds on the i-th
    /// attempt, or fail with `TooManyAttemptsAuth` once the limit is
    /// reached.
    pub fn next_delay(&mut self) -> (r: Result<u64, OrderError>)
        requires
            old(self).wf(),
        ensures
            final(self).wf(),
            final(self).domain == old(self).domain,
            if old(self).attempts < spec_auth_attempt_limit() {
                &&& r matches Ok(s)
                &&& s == pow2(old(self).attempts as nat)
                &&& final(self).attempts == old(self).attempts + 1
            } else {
                &&& r matches Err(e)
                &&& (e matches OrderError::TooManyAttemptsAuth(d) && d@ == old(self).domain@)
                &&& final(self).attempts == old(self).attempts
            },
    {
        if self.attempts < 5 {
            let s = backoff_secs(self.attempts as usize);
            self.attempts = self.attempts + 1;
            Ok(s)
        } else {
            Err(OrderError::TooManyAttemptsAuth(self.domain.clone()))
        }
    }
}

/// What a fetched authorization state means while polling: `valid` is done,
/// `pending` asks for the challenge to be triggered again, everything else
/// is `BadAuth`.
pub fn auth_poll_step(auth: Auth) -> (r: Result<bool, OrderError>)
    ensures
        match auth.status {
            AuthStatus::Valid => r == Ok::<bool, OrderError>(true),
            AuthStatus::Pending => r == Ok::<bool, OrderError>(false),
            _ => r matches Err(e) && (e matches OrderError::BadAuth(a) && a == auth),
        },
{
    match auth.status {
        AuthStatus::Valid => Ok(true),
        AuthStatus::Pending => Ok(false),
        _ => Err(OrderError::BadAuth(auth)),
    }
}

} // verus!
