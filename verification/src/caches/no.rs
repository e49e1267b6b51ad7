//! A cache that stores nothing: every load misses, every store is dropped.

use vstd::prelude::*;
use crate::cache::{CertCache, AccountCache};
use core::marker::PhantomData;

verus! {

/// The no-op cache.  Its error types are whatever the surrounding code
/// needs; it never produces one.
pub struct NoCache<EC, EA> {
    pub cert_error: PhantomData<EC>,
    pub account_error: PhantomData<EA>,
}

impl<EC, EA> NoCache<EC, EA> {
    /// A no-op cache.
    pub fn new() -> Self {
        NoCache { cert_error: PhantomData, account_error: PhantomData }
    }
}

impl<EC, EA> CertCache for NoCache<EC, EA> {
    type EC = EC;

    fn load_cert(&self, domains: &Vec<String>, directory_url: &String) -> (r: Result<
        Option<Vec<u8>>,
        EC,
    >)
        ensures
            r matches Ok(v) && v is None,
    {
        Ok(None)
    }

    fn store_cert(&self, domains: &Vec<String>, directory_url: &String, cert: &Vec<u8>) -> (r:
        Result<(), EC>)
        ensures
            r is Ok,
    {
        Ok(())
    }
}

impl<EC, EA> AccountCache for NoCache<EC, EA> {
    type EA = EA;

    fn load_account(&self, contact: &Vec<String>, directory_url: &String) -> (r: Result<
        Option<Vec<u8>>,
        EA,
    >)
        ensures
            r matches Ok(v) && v is None,
    {
        Ok(None)
    }

    fn store_account(
        &self,
        contact: &Vec<String>,
        directory_url: &String,
        account: &Vec<u8>,
    ) -> (r: Result<(), EA>)
        ensures
            r is Ok,
    {
        Ok(())
    }
}

} // verus!
