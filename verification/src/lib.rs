//! An ACME (RFC 8555) certificate acquisition and renewal library built around
//! verified core logic: the lifecycle state machine, the TLS-ALPN-01 challenge
//! material, the JOSE request envelopes, the PEM bundle codec and the cache key
//! derivation are all specified by contracts and checked by Verus.
//!
//! Network transport, the TLS acceptor and the asynchronous runtime glue live
//! outside the library and drive it through plain values.

use vstd::prelude::*;

pub mod acme;
pub mod b64;
pub mod cache;
pub mod caches;
pub mod config;
pub mod crypto;
pub mod https_helper;
pub mod jose;
pub mod order;
pub mod pem;
pub mod resolver;
pub mod state;

verus! {

/// 2^n as a specification-level natural number.
pub open spec fn pow2(n: nat) -> nat
    decreases n,
{
    if n == 0 {
        1
    } else {
        2 * pow2((n - 1) as nat)
    }
}

/// The number of whole seconds slept after an order failure when `cnt`
/// consecutive failures have already been recorded (capped at 16).
pub fn backoff_secs(cnt: usize) -> (r: u64)
    requires
        cnt <= 16,
    ensures
        r == pow2(cnt as nat),
{
    proof {
        lemma_pow2_le_u64_max(cnt as nat);
    }
    1u64 << (cnt as u64)
}

proof fn lemma_pow2_le_u64_max(n: nat)
    requires
        n <= 16,
    ensures
        pow2(n) == (1u64 << (n as u64)),
        pow2(n) <= 65536,
    decreases n,
{
    if n == 0 {
        assert((1u64 << 0u64) == 1) by (bit_vector);
    } else {
        lemma_pow2_le_u64_max((n - 1) as nat);
        let m = (n - 1) as u64;
        assert(m < 16 ==> (1u64 << (m + 1)) == 2 * (1u64 << m) && (1u64 << m) <= 32768)
            by (bit_vector);
    }
}

} // verus!
