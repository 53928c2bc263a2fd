//! The relay's configuration.

use crate::text;
use vstd::hash_map::StringHashMap;
use vstd::prelude::*;

verus! {

/// The whole configuration.
pub struct Config {
    pub listen: ListenConfig,
    pub targets: Targets,
}

/// Where to listen, and to whom.
pub struct ListenConfig {
    pub ip: String,
    pub port: u16,
    /// The addresses and CIDR ranges that may connect; all may where this is
    /// absent.
    pub allowed_proxy_ips: Option<Vec<String>>,
    /// With this present, connections are accepted over TLS only.
    pub tls: Option<TlsConfig>,
}

/// The PEM files of the server's certificate chain and private key.
pub struct TlsConfig {
    pub cert_file: String,
    pub key_file: String,
}

/// A TCP backend.
pub struct TargetConfig {
    pub host: String,
    pub port: u16,
}

impl Clone for TargetConfig {
    fn clone(&self) -> (copy: TargetConfig)
        ensures
            copy == *self,
    {
        TargetConfig { host: self.host.clone(), port: self.port }
    }
}

/// The backends, by the domain that a request's `Host` header names.
pub struct Targets {
    by_domain: StringHashMap<TargetConfig>,
}

impl View for Targets {
    type V = Map<Seq<char>, TargetConfig>;

    closed spec fn view(&self) -> Map<Seq<char>, TargetConfig> {
        self.by_domain@
    }
}

impl Targets {
    /// No backends.
    pub fn new() -> (targets: Targets)
        ensures
            targets@ == Map::<Seq<char>, TargetConfig>::empty(),
    {
        Targets { by_domain: StringHashMap::new() }
    }

    /// Sets the backend of `domain`.
    pub fn insert(&mut self, domain: String, target: TargetConfig)
        ensures
            final(self)@ == old(self)@.insert(domain@, target),
    {
        self.by_domain.insert(domain, target);
    }

    /// The backend of `domain`.
    pub fn get(&self, domain: &str) -> (target: Option<&TargetConfig>)
        ensures
            match target {
                Some(target) => self@.contains_key(domain@) && *target == self@[domain@],
                None => !self@.contains_key(domain@),
            },
    {
        self.by_domain.get(domain)
    }

    /// The number of domains.
    pub fn len(&self) -> (count: usize)
        ensures
            count == self@.len(),
    {
        self.by_domain.len()
    }
}

impl ListenConfig {
    /// The address to listen on.
    pub open spec fn address_text(self) -> Seq<char> {
        text::host_port(self.ip@, self.port)
    }

    /// Writes the address to listen on.
    pub fn address(&self) -> (address: String)
        ensures
            address@ == self.address_text(),
    {
        text::host_port_text(self.ip.as_str(), self.port)
    }
}

impl TargetConfig {
    /// The address to connect to.
    pub open spec fn address_text(self) -> Seq<char> {
        text::host_port(self.host@, self.port)
    }

    /// Writes the address to connect to.
    pub fn address(&self) -> (address: String)
        ensures
            address@ == self.address_text(),
    {
        text::host_port_text(self.host.as_str(), self.port)
    }
}

/// The address of a backend is its host, a colon and the number of its port.
pub proof fn law_backend_address_is_host_and_port(target: TargetConfig, address: String)
    requires
        call_ensures(TargetConfig::address, (&target,), address),
    ensures
        address@ == target.host@ + seq![':'] + text::decimal(target.port as nat),
{
}

/// The address to listen on is the configured IP, a colon and the number of the port.
pub proof fn law_listen_address_is_ip_and_port(listen: ListenConfig, address: String)
    requires
        call_ensures(ListenConfig::address, (&listen,), address),
    ensures
        address@ == listen.ip@ + seq![':'] + text::decimal(listen.port as nat),
{
}

/// A domain has a backend exactly where the configuration names it, letter for letter,
/// and the backend is the one that it names.
pub proof fn law_backends_are_found_by_domain(
    targets: Targets,
    domain: &str,
    target: Option<&TargetConfig>,
)
    requires
        call_ensures(Targets::get, (&targets, domain), target),
    ensures
        target is Some <==> targets@.contains_key(domain@),
        target matches Some(target) ==> *target == targets@[domain@],
{
}

} // verus!
