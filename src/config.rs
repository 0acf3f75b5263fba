use vstd::prelude::*;
use crate::address::IpAddress;
use crate::error::{ConfigField, ResolveError};
use crate::test_backend::TestZones;

verus! {

/// The transport used to reach a name server.
#[derive(Debug, Clone, Copy, PartialEq, Eq, Structural)]
pub enum Protocol {
    Udp,
    Tcp,
}

/// When the system hosts data is consulted.
#[derive(Debug, Clone, Copy, PartialEq, Eq, Structural)]
pub enum HostsPolicy {
    Never,
    Auto,
    Always,
}

/// A socket address as plain values.
#[derive(Debug, Clone, Copy, PartialEq, Eq, Structural)]
pub struct SocketAddress {
    pub ip: IpAddress,
    pub port: u16,
}

/// An address as it was configured: its text, and the socket address the
/// text denotes, or `None` where it is not a valid socket address.
#[derive(Debug)]
pub struct AddressText {
    pub text: String,
    pub parsed: Option<SocketAddress>,
}

/// One configured name server.
#[derive(Debug)]
pub enum NameServerSpec {
    /// A bare address, reached over UDP.
    Ip(AddressText),
    Detailed {
        socket_addr: AddressText,
        protocol: Protocol,
        trust_negative_responses: bool,
        bind_addr: Option<AddressText>,
    },
}

/// The resolver configuration, as the configuration front-end hands it over.
#[derive(Debug)]
pub struct DnsConfig {
    pub domain: Option<String>,
    pub search: Vec<String>,
    pub name_servers: Vec<NameServerSpec>,
    pub validate: bool,
    pub use_hosts_file: HostsPolicy,
}

/// One name server of a stub resolver, ready to be used.
#[derive(Debug, Clone, Copy, PartialEq, Eq, Structural)]
pub struct ServerPlan {
    pub addr: SocketAddress,
    pub protocol: Protocol,
    pub trust_negative_responses: bool,
    pub bind_addr: Option<SocketAddress>,
}

/// A validated configuration for the stub resolver.
#[derive(Debug)]
pub struct StandardPlan {
    pub domain: Option<String>,
    pub search: Vec<String>,
    pub servers: Vec<ServerPlan>,
    pub validate: bool,
    pub use_hosts_file: HostsPolicy,
}

/// A validated configuration for the DNSSEC-validating forwarding resolver.
/// Forwarders are registered first, then trust anchors, then hosts data.
#[derive(Debug)]
pub struct ValidatingPlan {
    pub forwarders: Vec<SocketAddress>,
    pub load_trust_anchors: bool,
    pub load_hosts: bool,
}

/// Whether the text is a domain name in hickory's relaxed syntax.
pub uninterp spec fn relaxed_name_valid(s: Seq<char>) -> bool;

/// Relies on hickory's `Name::from_str_relaxed`, which decides whether the
/// text is a domain name from the text alone.
#[verifier::external_body]
fn name_is_valid(s: &str) -> (r: bool)
    ensures
        r == relaxed_name_valid(s@),
{
    hickory_resolver::Name::from_str_relaxed(s).is_ok()
}

/// The address a name server is reached at.
pub open spec fn server_addr(ns: NameServerSpec) -> AddressText {
    match ns {
        NameServerSpec::Ip(a) => a,
        NameServerSpec::Detailed { socket_addr, .. } => socket_addr,
    }
}

/// The local address a name server is reached from, if one is configured.
pub open spec fn server_bind(ns: NameServerSpec) -> Option<AddressText> {
    match ns {
        NameServerSpec::Ip(_) => None,
        NameServerSpec::Detailed { bind_addr, .. } => bind_addr,
    }
}

/// Whether every address of a name server is a valid socket address.
pub open spec fn server_valid(ns: NameServerSpec) -> bool {
    &&& server_addr(ns).parsed is Some
    &&& server_bind(ns) matches Some(b) ==> b.parsed is Some
}

/// The plan for a name server whose addresses are valid.
pub open spec fn server_plan(ns: NameServerSpec) -> ServerPlan {
    match ns {
        NameServerSpec::Ip(a) => ServerPlan {
            addr: a.parsed.unwrap(),
            protocol: Protocol::Udp,
            trust_negative_responses: false,
            bind_addr: None,
        },
        NameServerSpec::Detailed { socket_addr, protocol, trust_negative_responses, bind_addr } =>
            ServerPlan {
            addr: socket_addr.parsed.unwrap(),
            protocol,
            trust_negative_responses,
            bind_addr: match bind_addr {
                Some(b) => b.parsed,
                None => None,
            },
        },
    }
}

/// Whether the configured default domain is acceptable.
pub open spec fn domain_valid(c: DnsConfig) -> bool {
    c.domain matches Some(d) ==> relaxed_name_valid(d@)
}

/// Whether the stub resolver can be built from the configuration.
pub open spec fn standard_valid(c: DnsConfig) -> bool {
    &&& domain_valid(c)
    &&& forall|i: int| 0 <= i < c.search@.len() ==> relaxed_name_valid(#[trigger] c.search@[i]@)
    &&& forall|i: int| 0 <= i < c.name_servers@.len() ==> server_valid(#[trigger] c.name_servers@[i])
}

/// Whether `e` reports the configuration entry `field` with text `text`.
pub open spec fn reports(e: ResolveError, field: ConfigField, text: Seq<char>) -> bool {
    e matches ResolveError::Configuration(f, s) && f == field && s@ == text
}

/// Whether `e` reports the name server `ns`: its address where that is
/// invalid, else its bind address.
pub open spec fn reports_server(e: ResolveError, ns: NameServerSpec) -> bool {
    if server_addr(ns).parsed is None {
        reports(e, ConfigField::NameServer, server_addr(ns).text@)
    } else {
        reports(e, ConfigField::BindAddr, server_bind(ns).unwrap().text@)
    }
}

/// The error the stub resolver's configuration is rejected with: the first
/// invalid entry, taking the domain, then the search list, then the name
/// servers, each list in order.
pub open spec fn standard_error(c: DnsConfig, e: ResolveError) -> bool {
    if !domain_valid(c) {
        reports(e, ConfigField::Domain, c.domain.unwrap()@)
    } else if exists|i: int| 0 <= i < c.search@.len() && !relaxed_name_valid(#[trigger] c.search@[i]@) {
        exists|i: int|
            0 <= i < c.search@.len() && !relaxed_name_valid(#[trigger] c.search@[i]@) && (forall|j: int|
                0 <= j < i ==> relaxed_name_valid(c.search@[j]@)) && reports(
                e,
                ConfigField::Search,
                c.search@[i]@,
            )
    } else {
        exists|i: int|
            0 <= i < c.name_servers@.len() && !server_valid(#[trigger] c.name_servers@[i]) && (forall|j: int|
                0 <= j < i ==> server_valid(c.name_servers@[j])) && reports_server(e, c.name_servers@[i])
    }
}

/// Whether `p` is the stub resolver plan for the valid configuration `c`.
pub open spec fn standard_plan_of(c: DnsConfig, p: StandardPlan) -> bool {
    &&& (p.domain is Some <==> c.domain is Some)
    &&& (p.domain is Some ==> p.domain.unwrap()@ == c.domain.unwrap()@)
    &&& p.search@.len() == c.search@.len()
    &&& forall|i: int| 0 <= i < c.search@.len() ==> (#[trigger] p.search@[i])@ == c.search@[i]@
    &&& p.servers@ == c.name_servers@.map_values(|ns: NameServerSpec| server_plan(ns))
    &&& p.validate == c.validate
    &&& p.use_hosts_file == c.use_hosts_file
}

fn copy_text(s: &String) -> (r: String)
    ensures
        r@ == s@,
{
    s.clone()
}

/// Checks the configuration for the stub resolver and turns it into a plan.
pub fn standard_plan(c: &DnsConfig) -> (r: Result<StandardPlan, ResolveError>)
    ensures
        match r {
            Ok(p) => standard_valid(*c) && standard_plan_of(*c, p),
            Err(e) => !standard_valid(*c) && standard_error(*c, e),
        },
{
    let domain = match &c.domain {
        Some(d) => {
            if !name_is_valid(d.as_str()) {
                return Err(ResolveError::Configuration(ConfigField::Domain, copy_text(d)));
            }
            Some(copy_text(d))
        },
        None => None,
    };
    let mut search: Vec<String> = Vec::new();
    let mut i: usize = 0;
    while i < c.search.len()
        invariant
            domain_valid(*c),
            i <= c.search@.len(),
            search@.len() == i,
            forall|j: int| 0 <= j < i ==> relaxed_name_valid(#[trigger] c.search@[j]@),
            forall|j: int| 0 <= j < i ==> (#[trigger] search@[j])@ == c.search@[j]@,
        decreases c.search@.len() - i,
    {
        if !name_is_valid(c.search[i].as_str()) {
            let e = ResolveError::Configuration(ConfigField::Search, copy_text(&c.search[i]));
            assert(!relaxed_name_valid(c.search@[i as int]@));
            return Err(e);
        }
        search.push(copy_text(&c.search[i]));
        i = i + 1;
    }
    let mut servers: Vec<ServerPlan> = Vec::new();
    let mut k: usize = 0;
    while k < c.name_servers.len()
        invariant
            domain_valid(*c),
            forall|j: int| 0 <= j < c.search@.len() ==> relaxed_name_valid(#[trigger] c.search@[j]@),
            k <= c.name_servers@.len(),
            forall|j: int| 0 <= j < k ==> server_valid(#[trigger] c.name_servers@[j]),
            servers@ == c.name_servers@.subrange(0, k as int).map_values(
                |ns: NameServerSpec| server_plan(ns),
            ),
        decreases c.name_servers@.len() - k,
    {
        let plan = match &c.name_servers[k] {
            NameServerSpec::Ip(a) => match a.parsed {
                Some(addr) => ServerPlan {
                    addr,
                    protocol: Protocol::Udp,
                    trust_negative_responses: false,
                    bind_addr: None,
                },
                None => {
                    return Err(ResolveError::Configuration(ConfigField::NameServer, copy_text(&a.text)));
                },
            },
            NameServerSpec::Detailed { socket_addr, protocol, trust_negative_responses, bind_addr } => {
                let addr = match socket_addr.parsed {
                    Some(addr) => addr,
                    None => {
                        return Err(
                            ResolveError::Configuration(ConfigField::NameServer, copy_text(&socket_addr.text)),
                        );
                    },
                };
                let bind = match bind_addr {
                    Some(b) => match b.parsed {
                        Some(x) => Some(x),
                        None => {
                            return Err(ResolveError::Configuration(ConfigField::BindAddr, copy_text(&b.text)));
                        },
                    },
                    None => None,
                };
                ServerPlan {
                    addr,
                    protocol: *protocol,
                    trust_negative_responses: *trust_negative_responses,
                    bind_addr: bind,
                }
            },
        };
        assert(server_plan(c.name_servers@[k as int]) == plan);
        servers.push(plan);
        k = k + 1;
        assert(servers@ =~= c.name_servers@.subrange(0, k as int).map_values(
            |ns: NameServerSpec| server_plan(ns),
        ));
    }
    assert(c.name_servers@.subrange(0, k as int) =~= c.name_servers@);
    Ok(StandardPlan {
        domain,
        search,
        servers,
        validate: c.validate,
        use_hosts_file: c.use_hosts_file,
    })
}

/// Whether every name server address is a valid socket address; the
/// validating resolver reads nothing else of a name server.
pub open spec fn forwarders_valid(c: DnsConfig) -> bool {
    forall|i: int| 0 <= i < c.name_servers@.len() ==> (#[trigger] server_addr(c.name_servers@[i])).parsed is Some
}

/// Whether `p` is the validating resolver plan for the valid configuration `c`.
pub open spec fn validating_plan_of(c: DnsConfig, p: ValidatingPlan) -> bool {
    &&& p.forwarders@ == c.name_servers@.map_values(|ns: NameServerSpec| server_addr(ns).parsed.unwrap())
    &&& p.load_trust_anchors == c.validate
    &&& p.load_hosts == (c.use_hosts_file is Always || c.use_hosts_file is Auto)
}

/// Checks the configuration for the validating resolver and turns it into a
/// plan; the first name server whose address is invalid is reported.
pub fn validating_plan(c: &DnsConfig) -> (r: Result<ValidatingPlan, ResolveError>)
    ensures
        match r {
            Ok(p) => forwarders_valid(*c) && validating_plan_of(*c, p),
            Err(e) => !forwarders_valid(*c) && exists|i: int|
                0 <= i < c.name_servers@.len() && (#[trigger] server_addr(c.name_servers@[i])).parsed is None
                    && (forall|j: int| 0 <= j < i ==> server_addr(c.name_servers@[j]).parsed is Some)
                    && reports(e, ConfigField::NameServer, server_addr(c.name_servers@[i]).text@),
        },
{
    let mut forwarders: Vec<SocketAddress> = Vec::new();
    let mut k: usize = 0;
    while k < c.name_servers.len()
        invariant
            k <= c.name_servers@.len(),
            forall|j: int| 0 <= j < k ==> (#[trigger] server_addr(c.name_servers@[j])).parsed is Some,
            forwarders@ == c.name_servers@.subrange(0, k as int).map_values(
                |ns: NameServerSpec| server_addr(ns).parsed.unwrap(),
            ),
        decreases c.name_servers@.len() - k,
    {
        let a = match &c.name_servers[k] {
            NameServerSpec::Ip(a) => a,
            NameServerSpec::Detailed { socket_addr, .. } => socket_addr,
        };
        match a.parsed {
            Some(addr) => {
                forwarders.push(addr);
            },
            None => {
                assert(server_addr(c.name_servers@[k as int]).parsed is None);
                return Err(ResolveError::Configuration(ConfigField::NameServer, copy_text(&a.text)));
            },
        }
        k = k + 1;
        assert(forwarders@ =~= c.name_servers@.subrange(0, k as int).map_values(
            |ns: NameServerSpec| server_addr(ns).parsed.unwrap(),
        ));
    }
    assert(c.name_servers@.subrange(0, k as int) =~= c.name_servers@);
    let load_hosts = match c.use_hosts_file {
        HostsPolicy::Never => false,
        _ => true,
    };
    Ok(ValidatingPlan { forwarders, load_trust_anchors: c.validate, load_hosts })
}

/// One resolver backend, ready to be put to use.
#[derive(Debug)]
pub enum Backend {
    /// A stub resolver forwarding to the configured name servers.
    Standard(StandardPlan),
    /// A DNSSEC-validating forwarding resolver.
    Validating(ValidatingPlan),
    /// In-memory zones, for deterministic resolution without a network.
    Test(TestZones),
}

/// The process-wide holder of the active backend. A configuration is checked
/// in full before the slot is touched, so a rejected one leaves the slot as
/// it was; an accepted one replaces the backend for the calls that follow.
#[derive(Debug)]
pub struct ResolverSlot {
    pub current: Option<Backend>,
}

impl ResolverSlot {
    /// A slot with no backend yet.
    pub fn new() -> (r: ResolverSlot)
        ensures
            r.current is None,
    {
        ResolverSlot { current: None }
    }

    /// The active backend, or `Unavailable` before any was installed.
    pub fn backend(&self) -> (r: Result<&Backend, ResolveError>)
        ensures
            match self.current {
                Some(b) => r == Ok::<&Backend, ResolveError>(&b),
                None => r == Err::<&Backend, ResolveError>(ResolveError::Unavailable),
            },
    {
        match &self.current {
            Some(b) => Ok(b),
            None => Err(ResolveError::Unavailable),
        }
    }

    /// Installs a stub resolver built from `c`, or rejects `c` and leaves the
    /// slot unchanged.
    pub fn configure_standard(&mut self, c: &DnsConfig) -> (r: Result<(), ResolveError>)
        ensures
            match r {
                Ok(()) => standard_valid(*c) && (final(self).current matches Some(Backend::Standard(p))
                    && standard_plan_of(*c, p)),
                Err(e) => !standard_valid(*c) && standard_error(*c, e) && *final(self) == *old(self),
            },
    {
        let plan = standard_plan(c)?;
        self.current = Some(Backend::Standard(plan));
        Ok(())
    }

    /// Installs a validating resolver built from `c`, or rejects `c` and
    /// leaves the slot unchanged.
    pub fn configure_validating(&mut self, c: &DnsConfig) -> (r: Result<(), ResolveError>)
        ensures
            match r {
                Ok(()) => forwarders_valid(*c) && (final(self).current matches Some(Backend::Validating(p))
                    && validating_plan_of(*c, p)),
                Err(e) => !forwarders_valid(*c) && e is Configuration && *final(self) == *old(self),
            },
    {
        let plan = validating_plan(c)?;
        self.current = Some(Backend::Validating(plan));
        Ok(())
    }

    /// Installs a test backend seeded with the given zones.
    pub fn configure_test(&mut self, zones: TestZones)
        ensures
            final(self).current matches Some(Backend::Test(z)) && z.records@ == zones.records@,
    {
        self.current = Some(Backend::Test(zones));
    }
}

/// A stub-resolver configuration with a name server whose address is not a
/// valid socket address is rejected with a configuration error, and the slot
/// keeps the backend it had.
pub proof fn lemma_invalid_server_rejected(c: DnsConfig, i: int, e: ResolveError)
    requires
        0 <= i < c.name_servers@.len(),
        server_addr(c.name_servers@[i]).parsed is None,
        standard_error(c, e),
    ensures
        !standard_valid(c),
        e is Configuration,
{
    assert(!server_valid(c.name_servers@[i]));
}

} // verus!
