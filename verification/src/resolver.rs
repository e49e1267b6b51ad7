//! The certificate resolver: the one surface the handshake path and the
//! lifecycle engine share.
//!
//! It holds at most one live certified key and one ephemeral validation key
//! per domain.  A challenge handshake — ALPN exactly `acme-tls/1` and a
//! server name with a published validation key — resolves to that validation
//! key; every other handshake resolves to the live key, or to nothing before
//! the first deployment.  Installing a live key removes every validation
//! key.  The key type is generic; the TLS layer instantiates it and supplies
//! the locking around concurrent use.

use vstd::prelude::*;
use crate::acme::{spec_acme_tls_alpn_name, acme_tls_alpn_name};
use crate::pem::eq_bytes;

verus! {

/// What the resolver reads from a TLS ClientHello: the server name and the
/// ALPN protocol list, as plain values.
pub struct ClientHelloInfo {
    pub sni: Option<String>,
    pub alpn: Vec<Vec<u8>>,
}

/// A challenge hello: the ALPN list is exactly `[acme-tls/1]`.
pub open spec fn spec_is_challenge(hello: &ClientHelloInfo) -> bool {
    hello.alpn@.len() == 1 && hello.alpn@[0]@ == spec_acme_tls_alpn_name()
}

/// Is this hello a TLS-ALPN-01 challenge handshake?
pub fn is_challenge_hello(hello: &ClientHelloInfo) -> (r: bool)
    ensures
        r == spec_is_challenge(hello),
{
    if hello.alpn.len() != 1 {
        return false;
    }
    let name = acme_tls_alpn_name();
    eq_bytes(hello.alpn[0].as_slice(), name.as_slice())
}

/// The validation key published for a domain, if any: the first entry of the
/// association list whose domain matches.
pub open spec fn spec_auth_key_for<K>(s: Seq<(String, K)>, d: Seq<char>) -> Option<K>
    decreases s.len(),
{
    if s.len() == 0 {
        None
    } else if s[0].0@ == d {
        Some(s[0].1)
    } else {
        spec_auth_key_for(s.skip(1), d)
    }
}

/// The resolver state.
pub struct CertResolver<K> {
    pub live: Option<K>,
    pub auth_keys: Vec<(String, K)>,
}

impl<K> CertResolver<K> {
    /// Well-formed: the published domains are distinct.
    pub open spec fn wf(&self) -> bool {
        forall|i: int, j: int|
            0 <= i < j < self.auth_keys@.len() ==> self.auth_keys@[i].0@ != self.auth_keys@[j].0@
    }

    /// What a hello resolves to: the domain's validation key on a challenge
    /// hello naming a published domain, else the live key.
    pub open spec fn spec_resolve(&self, hello: &ClientHelloInfo) -> Option<K> {
        if spec_is_challenge(hello) && hello.sni is Some && spec_auth_key_for(
            self.auth_keys@,
            hello.sni.unwrap()@,
        ) is Some {
            spec_auth_key_for(self.auth_keys@, hello.sni.unwrap()@)
        } else {
            self.live
        }
    }

    /// An empty resolver: no live key, no validation keys.
    pub fn new() -> (r: Self)
        ensures
            r.wf(),
            r.live is None,
            r.auth_keys@.len() == 0,
    {
        CertResolver { live: None, auth_keys: Vec::new() }
    }

    /// Install the live key, dropping every validation key.
    pub fn set_cert(&mut self, key: K)
        ensures
            final(self).wf(),
            final(self).live == Some(key),
            final(self).auth_keys@.len() == 0,
    {
        self.live = Some(key);
        self.auth_keys.clear();
    }

    /// Publish the validation key for a domain, replacing an earlier one for
    /// the same domain.  Lookups under every other domain are unchanged, and
    /// the live key is untouched.
    #[verifier::loop_isolation(false)]
    pub fn set_auth_key(&mut self, domain: String, key: K)
        requires
            old(self).wf(),
        ensures
            final(self).wf(),
            final(self).live == old(self).live,
            spec_auth_key_for(final(self).auth_keys@, domain@) == Some(key),
            forall|d: Seq<char>|
                d != domain@ ==> #[trigger] spec_auth_key_for(final(self).auth_keys@, d)
                    == spec_auth_key_for(old(self).auth_keys@, d),
    {
        let ghost olds = self.auth_keys@;
        let n = self.auth_keys.len();
        let mut i: usize = 0;
        while i < n
            invariant
                i <= n,
                n == self.auth_keys@.len(),
                self.auth_keys@ == olds,
                self.live == old(self).live,
                forall|k: int| 0 <= k < i ==> olds[k].0@ != domain@,
            decreases n - i,
        {
            if eq_strings(&self.auth_keys[i].0, &domain) {
                let ghost d0 = olds[i as int].0;
                self.auth_keys[i] = (domain, key);
                proof {
                    lemma_lookup_prefix_hit(self.auth_keys@, domain@, i as int);
                    assert forall|d: Seq<char>| d != domain@ implies #[trigger] spec_auth_key_for(
                        self.auth_keys@,
                        d,
                    ) == spec_auth_key_for(olds, d) by {
                        lemma_lookup_update_same_key(olds, self.auth_keys@, i as int, d);
                    }
                    assert forall|a: int, b: int|
                        0 <= a < b < self.auth_keys@.len() implies self.auth_keys@[a].0@
                        != self.auth_keys@[b].0@ by {
                        assert(olds[a].0@ != olds[b].0@);
                        assert(d0@ == domain@);
                    }
                }
                return ;
            }
            i = i + 1;
        }
        self.auth_keys.push((domain, key));
        proof {
            lemma_lookup_prefix_hit(self.auth_keys@, domain@, n as int);
            assert forall|d: Seq<char>| d != domain@ implies #[trigger] spec_auth_key_for(
                self.auth_keys@,
                d,
            ) == spec_auth_key_for(olds, d) by {
                lemma_lookup_snoc_other(olds, self.auth_keys@[n as int], d);
            }
            assert forall|a: int, b: int|
                0 <= a < b < self.auth_keys@.len() implies self.auth_keys@[a].0@
                != self.auth_keys@[b].0@ by {
                if b < n {
                    assert(olds[a].0@ != olds[b].0@);
                } else {
                    assert(olds[a].0@ != domain@);
                }
            }
        }
    }

    /// Resolve a hello to the key the handshake should present.
    #[verifier::loop_isolation(false)]
    pub fn resolve<'a>(&'a self, hello: &ClientHelloInfo) -> (r: Option<&'a K>)
        ensures
            match r {
                Some(k) => self.spec_resolve(hello) == Some(*k),
                None => self.spec_resolve(hello) is None,
            },
    {
        if is_challenge_hello(hello) {
            match &hello.sni {
                Some(domain) => {
                    let n = self.auth_keys.len();
                    let mut i: usize = 0;
                    while i < n
                        invariant
                            i <= n,
                            n == self.auth_keys@.len(),
                            forall|k: int| 0 <= k < i ==> self.auth_keys@[k].0@ != domain@,
                        decreases n - i,
                    {
                        if eq_strings(&self.auth_keys[i].0, domain) {
                            proof {
                                lemma_lookup_prefix_hit(self.auth_keys@, domain@, i as int);
                            }
                            return Some(&self.auth_keys[i].1);
                        }
                        i = i + 1;
                    }
                    proof {
                        lemma_lookup_miss(self.auth_keys@, domain@);
                    }
                },
                None => {},
            }
        }
        match &self.live {
            Some(k) => Some(k),
            None => None,
        }
    }
}

/// String equality by value.
pub fn eq_strings(a: &String, b: &String) -> (r: bool)
    ensures
        r <==> a@ == b@,
{
    a.eq(b)
}

/// A match at `j` with no earlier match is what the lookup returns.
proof fn lemma_lookup_prefix_hit<K>(s: Seq<(String, K)>, d: Seq<char>, j: int)
    requires
        0 <= j < s.len(),
        s[j].0@ == d,
        forall|k: int| 0 <= k < j ==> s[k].0@ != d,
    ensures
        spec_auth_key_for(s, d) == Some(s[j].1),
    decreases j,
{
    if j == 0 {
    } else {
        lemma_lookup_prefix_hit(s.skip(1), d, j - 1);
    }
}

/// No match anywhere: the lookup returns nothing.
proof fn lemma_lookup_miss<K>(s: Seq<(String, K)>, d: Seq<char>)
    requires
        forall|k: int| 0 <= k < s.len() ==> s[k].0@ != d,
    ensures
        spec_auth_key_for(s, d) is None,
    decreases s.len(),
{
    if s.len() == 0 {
    } else {
        lemma_lookup_miss(s.skip(1), d);
    }
}

/// Replacing an entry without changing its domain leaves every other
/// domain's lookup unchanged.
proof fn lemma_lookup_update_same_key<K>(s1: Seq<(String, K)>, s2: Seq<(String, K)>, i: int, d: Seq<
    char,
>)
    requires
        s1.len() == s2.len(),
        0 <= i < s1.len(),
        s1[i].0@ == s2[i].0@,
        s1[i].0@ != d,
        forall|k: int| 0 <= k < s1.len() && k != i ==> s1[k] == s2[k],
    ensures
        spec_auth_key_for(s1, d) == spec_auth_key_for(s2, d),
    decreases s1.len(),
{
    if i == 0 {
        assert(s1.skip(1) =~= s2.skip(1));
    } else {
        assert(s1[0] == s2[0]);
        lemma_lookup_update_same_key(s1.skip(1), s2.skip(1), i - 1, d);
    }
}

/// Appending an entry for one domain leaves every other domain's lookup
/// unchanged.
proof fn lemma_lookup_snoc_other<K>(s: Seq<(String, K)>, e: (String, K), d: Seq<char>)
    requires
        e.0@ != d,
    ensures
        spec_auth_key_for(s.push(e), d) == spec_auth_key_for(s, d),
    decreases s.len(),
{
    if s.len() == 0 {
        assert(s.push(e)[0] == e);
        assert(s.push(e).skip(1) =~= Seq::<(String, K)>::empty());
        assert(spec_auth_key_for(Seq::<(String, K)>::empty(), d) is None);
    } else {
        assert(s.push(e)[0] == s[0]);
        assert(s.push(e).skip(1) =~= s.skip(1).push(e));
        lemma_lookup_snoc_other(s.skip(1), e, d);
    }
}

} // verus!
