//! The persistence contract the engine drives.
//!
//! A cache maps a configuration — the ordered domain list (or contact list)
//! together with the directory URL — to stored bytes.  The same inputs must
//! reach the same slot; reordering the inputs is a different slot.  A miss
//! is `Ok(None)`; a failure must not be taken for a miss.  Implementations
//! perform their own I/O, outside the library.

use vstd::prelude::*;

verus! {

/// Certificate persistence.
pub trait CertCache {
    /// The failure type of this cache.
    type EC;

    /// The stored certificate bundle for this configuration, if any.
    fn load_cert(&self, domains: &Vec<String>, directory_url: &String) -> Result<
        Option<Vec<u8>>,
        Self::EC,
    >;

    /// Store the certificate bundle for this configuration.
    fn store_cert(&self, domains: &Vec<String>, directory_url: &String, cert: &Vec<u8>) -> Result<
        (),
        Self::EC,
    >;
}

/// Account-key persistence.
pub trait AccountCache {
    /// The failure type of this cache.
    type EA;

    /// The stored PKCS#8 account key for this configuration, if any.
    fn load_account(&self, contact: &Vec<String>, directory_url: &String) -> Result<
        Option<Vec<u8>>,
        Self::EA,
    >;

    /// Store the PKCS#8 account key for this configuration.
    fn store_account(
        &self,
        contact: &Vec<String>,
        directory_url: &String,
        account: &Vec<u8>,
    ) -> Result<(), Self::EA>;
}

/// Both halves together.
pub trait Cache: CertCache + AccountCache {

}

impl<T: CertCache + AccountCache> Cache for T {

}

} // verus!
