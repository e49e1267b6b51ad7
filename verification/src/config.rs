//! Engine configuration: the domain list, the account contacts, the
//! directory URL and the optional external account binding.
//!
//! The TLS client used for ACME calls and the pluggable cache are wired up
//! by the drive outside the library; everything the decisions depend on is
//! here as plain values.

use vstd::prelude::*;
use crate::acme::{
    ExternalAccountKey, lets_encrypt_staging_directory, lets_encrypt_production_directory,
};
use crate::state::AcmeState;

verus! {

/// What the lifecycle engine is configured with.
pub struct AcmeConfig {
    pub directory_url: String,
    pub domains: Vec<String>,
    pub contact: Vec<String>,
    pub eab: Option<ExternalAccountKey>,
}

impl AcmeConfig {
    /// A configuration for these domains: the Let's Encrypt staging
    /// directory, no contacts, no external account binding.
    pub fn new(domains: Vec<String>) -> (r: Self)
        ensures
            r.domains == domains,
            r.directory_url@ == "https://acme-staging-v02.api.letsencrypt.org/directory"@,
            r.contact@.len() == 0,
            r.eab is None,
    {
        AcmeConfig {
            directory_url: lets_encrypt_staging_directory(),
            domains,
            contact: Vec::new(),
            eab: None,
        }
    }

    /// Use this directory URL.
    pub fn directory(self, directory_url: String) -> (r: Self)
        ensures
            r == (AcmeConfig { directory_url, ..self }),
    {
        AcmeConfig { directory_url, ..self }
    }

    /// Use the Let's Encrypt production or staging directory.
    pub fn directory_lets_encrypt(self, production: bool) -> (r: Self)
        ensures
            production ==> r.directory_url@ == "https://acme-v02.api.letsencrypt.org/directory"@,
            !production ==> r.directory_url@
                == "https://acme-staging-v02.api.letsencrypt.org/directory"@,
            r.domains == self.domains,
            r.contact == self.contact,
            r.eab == self.eab,
    {
        let directory_url = if production {
            lets_encrypt_production_directory()
        } else {
            lets_encrypt_staging_directory()
        };
        AcmeConfig { directory_url, ..self }
    }

    /// Replace the domain list.
    pub fn domains(self, domains: Vec<String>) -> (r: Self)
        ensures
            r == (AcmeConfig { domains, ..self }),
    {
        AcmeConfig { domains, ..self }
    }

    /// Append one domain.
    pub fn domains_push(self, domain: String) -> (r: Self)
        ensures
            r.domains@ == self.domains@.push(domain),
            r.directory_url == self.directory_url,
            r.contact == self.contact,
            r.eab == self.eab,
    {
        let AcmeConfig { directory_url, mut domains, contact, eab } = self;
        domains.push(domain);
        AcmeConfig { directory_url, domains, contact, eab }
    }

    /// Use an external account binding with this key identifier and raw
    /// HMAC key.
    pub fn external_account_binding(self, kid: String, key: &[u8]) -> (r: Self)
        ensures
            r.eab matches Some(e) && e.kid@ == kid@ && e.key@ == key@,
            r.directory_url == self.directory_url,
            r.domains == self.domains,
            r.contact == self.contact,
    {
        let eab = Some(ExternalAccountKey::new(kid, key));
        AcmeConfig { eab, ..self }
    }

    /// Replace the contact list.  Mail addresses carry a `mailto:` prefix.
    pub fn contact(self, contact: Vec<String>) -> (r: Self)
        ensures
            r == (AcmeConfig { contact, ..self }),
    {
        AcmeConfig { contact, ..self }
    }

    /// Append one contact.  A mail address carries a `mailto:` prefix.
    pub fn contact_push(self, contact: String) -> (r: Self)
        ensures
            r.contact@ == self.contact@.push(contact),
            r.directory_url == self.directory_url,
            r.domains == self.domains,
            r.eab == self.eab,
    {
        let AcmeConfig { directory_url, domains, contact: mut contacts, eab } = self;
        contacts.push(contact);
        AcmeConfig { directory_url, domains, contact: contacts, eab }
    }

    /// Start a fresh engine over this configuration.
    pub fn state<EC, EA>(self) -> (r: AcmeState<EC, EA>)
        ensures
            r.wf(),
            r.config == self,
            r.account_key is None,
            r.load_cert_pending,
            r.load_account_pending,
            !r.order_in_flight,
            r.backoff_cnt == 0,
            r.wait_secs is None,
            r.early_action is None,
    {
        AcmeState::new(self)
    }
}

} // verus!
