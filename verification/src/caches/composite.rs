//! A cache composed of a certificate half and an account half.

use vstd::prelude::*;
use crate::cache::{CertCache, AccountCache};

verus! {

/// Two caches glued together: certificates go to one, account keys to the
/// other.
pub struct CompositeCache<C: CertCache, A: AccountCache> {
    pub cert_cache: C,
    pub account_cache: A,
}

impl<C: CertCache, A: AccountCache> CompositeCache<C, A> {
    /// Compose a certificate cache and an account cache.
    pub fn new(cert_cache: C, account_cache: A) -> (r: Self)
        ensures
            r.cert_cache == cert_cache,
            r.account_cache == account_cache,
    {
        CompositeCache { cert_cache, account_cache }
    }

    /// Take the two halves back.
    pub fn into_inner(self) -> (r: (C, A))
        ensures
            r.0 == self.cert_cache,
            r.1 == self.account_cache,
    {
        let CompositeCache { cert_cache, account_cache } = self;
        (cert_cache, account_cache)
    }
}

impl<C: CertCache, A: AccountCache> CertCache for CompositeCache<C, A> {
    type EC = C::EC;

    fn load_cert(&self, domains: &Vec<String>, directory_url: &String) -> Result<
        Option<Vec<u8>>,
        C::EC,
    > {
        self.cert_cache.load_cert(domains, directory_url)
    }

    fn store_cert(&self, domains: &Vec<String>, directory_url: &String, cert: &Vec<u8>) -> Result<
        (),
        C::EC,
    > {
        self.cert_cache.store_cert(domains, directory_url, cert)
    }
}

impl<C: CertCache, A: AccountCache> AccountCache for CompositeCache<C, A> {
    type EA = A::EA;

    fn load_account(&self, contact: &Vec<String>, directory_url: &String) -> Result<
        Option<Vec<u8>>,
        A::EA,
    > {
        self.account_cache.load_account(contact, directory_url)
    }

    fn store_account(
        &self,
        contact: &Vec<String>,
        directory_url: &String,
        account: &Vec<u8>,
    ) -> Result<(), A::EA> {
        self.account_cache.store_account(contact, directory_url, account)
    }
}

} // verus!
