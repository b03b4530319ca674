//! Process configuration: read once at startup, immutable afterwards.

use vstd::prelude::*;

verus! {

/// What the deployed service is configured with.
#[derive(Debug, Clone, PartialEq, Eq)]
pub struct Options {
    /// The root domain that the responder is authoritative for.
    pub dns_domain: String,
    /// The name server's domain, used for record metadata only.
    pub ns_domain: String,
    /// The host master's domain (the SOA RNAME), used for record metadata only.
    pub host_master_domain: String,
    /// The UDP address to listen on; `None` selects the default.
    pub listen: Option<String>,
}

impl Options {
    /// The address to listen on when none is configured.
    pub open spec fn default_listen() -> Seq<char> {
        "0.0.0.0:53"@
    }

    /// The address the service listens on.
    pub open spec fn listen_address_spec(self) -> Seq<char> {
        match self.listen {
            Some(addr) => addr@,
            None => Self::default_listen(),
        }
    }

    /// The configured listen address, or `0.0.0.0:53` where none is set.
    pub fn listen_address(&self) -> (addr: String)
        ensures
            addr@ == self.listen_address_spec(),
    {
        match &self.listen {
            Some(addr) => addr.clone(),
            None => "0.0.0.0:53".to_owned(),
        }
    }
}

impl Default for Options {
    /// Empty domains and no listen address.
    fn default() -> (o: Self)
        ensures
            o.dns_domain@.len() == 0,
            o.ns_domain@.len() == 0,
            o.host_master_domain@.len() == 0,
            o.listen is None,
    {
        Options {
            dns_domain: String::new(),
            ns_domain: String::new(),
            host_master_domain: String::new(),
            listen: None,
        }
    }
}

} // verus!
