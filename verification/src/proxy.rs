//! The data proxy's decisions: where a client's traffic goes, how a client
//! without session gets the default endpoint, and what a control packet does.

use vstd::prelude::*;
use crate::config::{Config, DataPortConfig, PortMapping, Protocol, ResourceMapping};
use crate::json::JsonValue;
use crate::k8s_client::{
    deref_all, lemma_ports_by_name, named_ports_view, spec_extract_address,
    spec_extract_port, spec_first_port_error, spec_kept, spec_named_ports, spec_port_named,
    ExtractError, K8sClient, Resource, StatusFilterView,
};
use crate::load_balancer::{LoadBalancer, SelectError};
use crate::port_map::PortMap;
use crate::session::{
    fresh_session, ClientAddr, SessionManager, SessionSocket, SessionView, SocketUse,
};
use crate::text::{lookup_last, opt_as_str, opt_string_view, spec_lookup};
use crate::token_cache::{AddrError, TargetAddr, TokenCache};

verus! {

/// Cached default endpoint target.
pub struct DefaultEndpointCache {
    pub address: String,
    /// For each data port and protocol, the port of the backend.
    pub port_mappings: PortMap,
}

/// An endpoint as contracts speak of it: the address and the port map.
pub type EndpointView = (Seq<char>, Map<(u16, Protocol), u16>);

impl View for DefaultEndpointCache {
    type V = EndpointView;

    open spec fn view(&self) -> EndpointView {
        (self.address@, self.port_mappings@)
    }
}

impl Clone for DefaultEndpointCache {
    fn clone(&self) -> (r: Self)
        ensures
            r@ == self@,
    {
        DefaultEndpointCache {
            address: self.address.clone(),
            port_mappings: self.port_mappings.clone(),
        }
    }
}

/// The holder of the default endpoint: one slot, filled by the data proxy
/// and emptied by the resource monitor.
pub struct DefaultEndpointCacheHandle {
    cache: Option<DefaultEndpointCache>,
}

impl DefaultEndpointCacheHandle {
    /// The endpoint that the slot holds.
    pub closed spec fn cached(&self) -> Option<EndpointView> {
        match self.cache {
            Some(c) => Some(c@),
            None => None,
        }
    }

    /// Create a new cache handle, with an empty slot.
    pub fn new() -> (r: Self)
        ensures
            r.cached() is None,
    {
        DefaultEndpointCacheHandle { cache: None }
    }

    /// Invalidate the cache: the slot is empty afterwards.
    pub fn invalidate(&mut self)
        ensures
            final(self).cached() is None,
    {
        self.cache = None;
    }

    /// Get the cache: the endpoint that the slot holds.
    pub fn get_cache(&self) -> (r: &Option<DefaultEndpointCache>)
        ensures
            match *r {
                Some(c) => self.cached() == Some(c@),
                None => self.cached() is None,
            },
    {
        &self.cache
    }

    /// Fills the slot.
    pub fn set(&mut self, endpoint: DefaultEndpointCache)
        ensures
            final(self).cached() == Some(endpoint@),
    {
        self.cache = Some(endpoint);
    }
}

/// Why the data proxy could not route.
#[derive(Debug, Clone, Copy, PartialEq, Eq, Structural)]
pub enum ProxyError {
    /// The default endpoint names a resource type that has no mapping.
    UnknownResourceType,
    /// No resource matches the default endpoint.
    NoMatchingResources,
    /// The default endpoint's mapping has no address path.
    AddressPathRequired,
    /// The backend selector chose none.
    Select(SelectError),
    /// No address or port could be read from the chosen resource.
    Extract(ExtractError),
    /// The default endpoint has no port for the data port and protocol.
    PortNotSupported { proxy_port: u16, protocol: Protocol },
    /// The default endpoint has to be resolved first.
    EndpointRequired,
    /// The client has no session.
    SessionNotFound,
    /// The session's target has no address for the data port.
    Target(AddrError),
}

/// The port map of a multi-port target: each data port whose name has a
/// port among the named ports goes to that port.
pub open spec fn spec_named_port_map(
    data_ports: Seq<DataPortConfig>,
    document: JsonValue,
    mappings: Seq<PortMapping>,
) -> Map<(u16, Protocol), u16>
    decreases data_ports.len(),
{
    if data_ports.len() == 0 {
        Map::empty()
    } else {
        let rest = spec_named_port_map(data_ports.drop_last(), document, mappings);
        let last = data_ports.last();
        match spec_port_named(document, mappings, last.name@) {
            Some(port) => rest.insert((last.port, last.protocol), port),
            None => rest,
        }
    }
}

/// The port map of a single-port target: every data port goes to `port`.
pub open spec fn spec_uniform_port_map(data_ports: Seq<DataPortConfig>, port: u16) -> Map<
    (u16, Protocol),
    u16,
>
    decreases data_ports.len(),
{
    if data_ports.len() == 0 {
        Map::empty()
    } else {
        spec_uniform_port_map(data_ports.drop_last(), port).insert(
            (data_ports.last().port, data_ports.last().protocol),
            port,
        )
    }
}

/// The target that a resource offers under a mapping: its address, and
/// its ports by name where the mapping names ports, else its one port for
/// every data port.
pub open spec fn spec_endpoint_target(
    document: JsonValue,
    mapping: ResourceMapping,
    data_ports: Seq<DataPortConfig>,
) -> Result<EndpointView, ProxyError> {
    match mapping.address_path {
        None => Err(ProxyError::AddressPathRequired),
        Some(path) => match spec_extract_address(
            document,
            path@,
            opt_string_view(mapping.address_type),
        ) {
            Err(e) => Err(ProxyError::Extract(e)),
            Ok(address) => match mapping.ports {
                Some(named) => match spec_first_port_error(document, named@) {
                    Some(e) => Err(ProxyError::Extract(e)),
                    None => Ok((address, spec_named_port_map(data_ports, document, named@))),
                },
                None => match spec_extract_port(
                    document,
                    opt_string_view(mapping.port_path),
                    opt_string_view(mapping.port_name),
                ) {
                    Err(e) => Err(ProxyError::Extract(e)),
                    Ok(port) => Ok((address, spec_uniform_port_map(data_ports, port))),
                },
            },
        },
    }
}

/// Reads the named ports of a resource and makes the port map of a
/// multi-port target of them: each data port whose name has a port among the
/// named ports goes to that port.
pub fn named_port_map(
    resource: &Resource,
    named: &Vec<PortMapping>,
    data_ports: &Vec<DataPortConfig>,
) -> (r: Result<(Vec<(String, u16)>, PortMap), ExtractError>)
    ensures
        match r {
            Ok((ports, map)) => {
                &&& spec_first_port_error(resource.document, named@) is None
                &&& named_ports_view(ports@) == spec_named_ports(resource.document, named@)
                &&& map@ == spec_named_port_map(data_ports@, resource.document, named@)
            },
            Err(e) => spec_first_port_error(resource.document, named@) == Some(e),
        },
{
    let client = K8sClient::new();
    let ports = match client.extract_ports(resource, named) {
        Ok(ports) => ports,
        Err(e) => {
            return Err(e);
        },
    };
    assert(named_ports_view(ports@) =~= spec_named_ports(resource.document, named@));
    let mut map = PortMap::new();
    let mut i: usize = 0;
    assert(data_ports@.take(0) =~= Seq::<DataPortConfig>::empty());
    while i < data_ports.len()
        invariant
            i <= data_ports.len(),
            ports@.len() == named@.len(),
            forall|k: int|
                0 <= k < ports@.len() ==> {
                    &&& (#[trigger] ports@[k]).0@ == named@[k].name@
                    &&& crate::k8s_client::spec_mapped_port(resource.document, named@[k]) == Ok::<
                        u16,
                        ExtractError,
                    >(ports@[k].1)
                },
            map@ == spec_named_port_map(data_ports@.take(i as int), resource.document, named@),
        decreases data_ports.len() - i,
    {
        let data_port = &data_ports[i];
        assert(data_ports@.take(i + 1).drop_last() =~= data_ports@.take(i as int));
        assert(data_ports@.take(i + 1).last() == *data_port);
        proof {
            lemma_ports_by_name(resource.document, named@, ports@, data_port.name@);
        }
        if let Some(port) = lookup_last(&ports, data_port.name.as_str()) {
            map.insert(data_port.port, data_port.protocol, *port);
        }
        i += 1;
    }
    assert(data_ports@.take(i as int) =~= data_ports@);
    Ok((ports, map))
}

/// The port map of a single-port target: every data port goes to `port`.
pub fn uniform_port_map(data_ports: &Vec<DataPortConfig>, port: u16) -> (r: PortMap)
    ensures
        r@ == spec_uniform_port_map(data_ports@, port),
{
    let mut map = PortMap::new();
    let mut i: usize = 0;
    assert(data_ports@.take(0) =~= Seq::<DataPortConfig>::empty());
    while i < data_ports.len()
        invariant
            i <= data_ports.len(),
            map@ == spec_uniform_port_map(data_ports@.take(i as int), port),
        decreases data_ports.len() - i,
    {
        assert(data_ports@.take(i + 1).drop_last() =~= data_ports@.take(i as int));
        assert(data_ports@.take(i + 1).last() == data_ports@[i as int]);
        map.insert(data_ports[i].port, data_ports[i].protocol, port);
        i += 1;
    }
    assert(data_ports@.take(i as int) =~= data_ports@);
    map
}

/// Reads the target that a resource offers under a mapping.
pub fn endpoint_target(
    resource: &Resource,
    mapping: &ResourceMapping,
    data_ports: &Vec<DataPortConfig>,
) -> (r: Result<DefaultEndpointCache, ProxyError>)
    ensures
        match r {
            Ok(endpoint) => spec_endpoint_target(resource.document, *mapping, data_ports@) == Ok::<
                EndpointView,
                ProxyError,
            >(endpoint@),
            Err(e) => spec_endpoint_target(resource.document, *mapping, data_ports@) == Err::<
                EndpointView,
                ProxyError,
            >(e),
        },
{
    let client = K8sClient::new();
    let address_path = match &mapping.address_path {
        Some(path) => path,
        None => {
            return Err(ProxyError::AddressPathRequired);
        },
    };
    let address = match client.extract_address(
        resource,
        address_path.as_str(),
        opt_as_str(&mapping.address_type),
    ) {
        Ok(address) => address,
        Err(e) => {
            return Err(ProxyError::Extract(e));
        },
    };
    match &mapping.ports {
        Some(named) => match named_port_map(resource, named, data_ports) {
            Ok((_, port_mappings)) => Ok(DefaultEndpointCache { address, port_mappings }),
            Err(e) => Err(ProxyError::Extract(e)),
        },
        None => match client.extract_port(
            resource,
            opt_as_str(&mapping.port_path),
            opt_as_str(&mapping.port_name),
        ) {
            Ok(port) => Ok(
                DefaultEndpointCache { address, port_mappings: uniform_port_map(data_ports, port) },
            ),
            Err(e) => Err(ProxyError::Extract(e)),
        },
    }
}

/// The status filter that a configuration asks for.
pub open spec fn status_filter_of(query: Option<crate::config::StatusQueryConfig>) -> StatusFilterView {
    match query {
        Some(q) => Some((q.json_path@, q.expected_values@)),
        None => None,
    }
}

/// The annotation selector that a configuration asks for.
pub open spec fn annotations_of(selector: Option<Vec<(String, String)>>) -> Option<
    Seq<(String, String)>,
> {
    match selector {
        Some(entries) => Some(entries@),
        None => None,
    }
}

/// How a client without session gets its target.
#[derive(Debug, Clone, Copy, PartialEq, Eq, Structural)]
pub enum DefaultRoute {
    /// The cached default endpoint serves the data port.
    Cached,
    /// The default endpoint has to be resolved from the orchestrator's
    /// resources; `store` says whether the outcome goes into the cache.
    Query { store: bool },
}

/// How a client without session gets its target for a data port, given what the cache holds.
pub open spec fn spec_default_route(
    cached: Option<EndpointView>,
    proxy_port: u16,
    protocol: Protocol,
) -> DefaultRoute {
    match cached {
        Some(endpoint) => if endpoint.1.contains_key((proxy_port, protocol)) {
            DefaultRoute::Cached
        } else {
            DefaultRoute::Query { store: false }
        },
        None => DefaultRoute::Query { store: true },
    }
}

/// What a datagram on a data port leads to.
#[derive(Debug, Clone, Copy, PartialEq, Eq, Structural)]
pub enum PacketPlan {
    /// The client has a session: the datagram is forwarded.
    Forward,
    /// The client has no session: a default session is established first.
    EstablishDefault,
}

/// Where a datagram goes and which ephemeral socket carries it.
pub struct UdpRoute {
    pub target: TargetAddr,
    pub socket: SocketUse,
}

/// What a datagram did that was examined as a control packet.
pub enum ControlOutcome {
    /// Control packets are switched off, or the datagram does not begin
    /// with the magic bytes: it is ordinary data.
    NotControl,
    /// The client's session was reset to the token's target; the sockets
    /// it had are handed back to be shut down.
    Reset(Vec<SessionSocket>),
    /// The token is unknown or expired: the datagram is dropped.
    InvalidToken,
}

/// The token of a control packet: what follows the magic bytes, where the
/// magic bytes are not empty and the packet begins with them.
pub open spec fn spec_control_token(magic: Seq<u8>, packet: Seq<u8>) -> Option<Seq<u8>> {
    if magic.len() > 0 && magic.len() <= packet.len() && packet.take(magic.len() as int) == magic {
        Some(packet.skip(magic.len() as int))
    } else {
        None
    }
}

/// The token of a control packet, if the packet is one.
pub fn control_token(magic: &Vec<u8>, packet: &Vec<u8>) -> (r: Option<Vec<u8>>)
    ensures
        match r {
            Some(token) => spec_control_token(magic@, packet@) == Some(token@),
            None => spec_control_token(magic@, packet@) is None,
        },
{
    if magic.len() == 0 || magic.len() > packet.len() {
        return None;
    }
    let mut i: usize = 0;
    while i < magic.len()
        invariant
            i <= magic.len() <= packet.len(),
            forall|j: int| 0 <= j < i ==> packet@[j] == magic@[j],
        decreases magic.len() - i,
    {
        if packet[i] != magic[i] {
            assert(packet@.take(magic@.len() as int)[i as int] != magic@[i as int]);
            return None;
        }
        i += 1;
    }
    assert(packet@.take(magic@.len() as int) =~= magic@);
    let mut token: Vec<u8> = Vec::new();
    let mut k: usize = magic.len();
    while k < packet.len()
        invariant
            magic.len() <= k <= packet.len(),
            token@ == packet@.subrange(magic@.len() as int, k as int),
        decreases packet.len() - k,
    {
        token.push(packet[k]);
        assert(packet@.subrange(magic@.len() as int, k + 1) =~= packet@.subrange(
            magic@.len() as int,
            k as int,
        ).push(packet@[k as int]));
        k += 1;
    }
    assert(packet@.subrange(magic@.len() as int, k as int) =~= packet@.skip(magic@.len() as int));
    Some(token)
}

/// Data proxy: the decisions for the data ports.
pub struct DataProxy {
    pub data_ports: Vec<DataPortConfig>,
    pub config: Config,
    pub load_balancer: LoadBalancer,
}

impl DataProxy {
    /// Create a new data proxy for a configuration: its data ports are
    /// those of the configuration, its load balancer has the configured
    /// strategy and counts no sessions.
    pub fn new(config: Config) -> (r: Self)
        ensures
            r.config == config,
            config.spec_data_ports(r.data_ports@),
            r.load_balancer.spec_strategy() == config.load_balancing.strategy,
            r.load_balancer.counts() == Map::<Seq<char>, usize>::empty(),
    {
        let data_ports = config.get_data_ports();
        let load_balancer = LoadBalancer::new(config.get_load_balancing().strategy.clone());
        DataProxy { data_ports, config, load_balancer }
    }

    /// The mapping of the default endpoint's resource type.
    pub open spec fn default_mapping(&self) -> Option<ResourceMapping> {
        spec_lookup(self.config.resource_query_mapping@, self.config.default_endpoint.resource_type@)
    }

    /// The candidates for the default endpoint among the resources listed.
    pub open spec fn default_candidates(&self, listed: Seq<Resource>) -> Seq<Resource> {
        spec_kept(
            listed,
            status_filter_of(self.config.default_endpoint.status_query),
            annotations_of(self.config.default_endpoint.annotation_selector),
        )
    }

    /// Whether `endpoint` is the default endpoint for the resources
    /// listed: the target of the candidate that the load balancer selects.
    pub open spec fn resolves_to(&self, listed: Seq<Resource>, endpoint: EndpointView) -> bool {
        match self.default_mapping() {
            Some(mapping) => match mapping.address_path {
                Some(path) => exists|i: int|
                    #[trigger] self.load_balancer.selects(
                        self.default_candidates(listed),
                        path@,
                        opt_string_view(mapping.address_type),
                        i,
                    ) && spec_endpoint_target(
                        self.default_candidates(listed)[i].document,
                        mapping,
                        self.data_ports@,
                    ) == Ok::<EndpointView, ProxyError>(endpoint),
                None => false,
            },
            None => false,
        }
    }

    /// Whether there is no default endpoint for the resources listed, and
    /// `e` says why: the resource type has no mapping; no resource is a
    /// candidate; the mapping has no address path; the load balancer selects
    /// none; or the target of the selected candidate cannot be read.
    pub open spec fn resolve_fails(&self, listed: Seq<Resource>, e: ProxyError) -> bool {
        match self.default_mapping() {
            None => e == ProxyError::UnknownResourceType,
            Some(mapping) => if self.default_candidates(listed).len() == 0 {
                e == ProxyError::NoMatchingResources
            } else {
                match mapping.address_path {
                    None => e == ProxyError::AddressPathRequired,
                    Some(path) => {
                        ||| exists|se: SelectError|
                            #[trigger] self.load_balancer.refuses(
                                self.default_candidates(listed),
                                path@,
                                opt_string_view(mapping.address_type),
                                se,
                            ) && e == ProxyError::Select(se)
                        ||| exists|i: int|
                            #[trigger] self.load_balancer.selects(
                                self.default_candidates(listed),
                                path@,
                                opt_string_view(mapping.address_type),
                                i,
                            ) && spec_endpoint_target(
                                self.default_candidates(listed)[i].document,
                                mapping,
                                self.data_ports@,
                            ) == Err::<EndpointView, ProxyError>(e)
                    },
                }
            },
        }
    }

    /// Resolve the default endpoint from the resources that the
    /// orchestrator listed for it: the candidates are those that pass the
    /// default endpoint's filters, the load balancer selects one, and its
    /// address and ports are the endpoint.
    pub fn query_default_endpoint(&self, listed: &Vec<Resource>) -> (r: Result<
        DefaultEndpointCache,
        ProxyError,
    >)
        ensures
            match r {
                Ok(endpoint) => self.resolves_to(listed@, endpoint@),
                Err(e) => self.resolve_fails(listed@, e),
            },
    {
        let default_endpoint = self.config.get_default_endpoint();
        let mapping = match self.config.find_mapping(default_endpoint.resource_type.as_str()) {
            Some(mapping) => mapping,
            None => {
                return Err(ProxyError::UnknownResourceType);
            },
        };
        let status: Option<(&str, &Vec<String>)> = match &default_endpoint.status_query {
            Some(q) => Some((q.json_path.as_str(), &q.expected_values)),
            None => None,
        };
        let selector: Option<&Vec<(String, String)>> = match &default_endpoint.annotation_selector {
            Some(entries) => Some(entries),
            None => None,
        };
        let client = K8sClient::new();
        let candidates = client.query_resources(listed, status, selector);
        assert(deref_all(candidates@) == self.default_candidates(listed@));
        if candidates.len() == 0 {
            return Err(ProxyError::NoMatchingResources);
        }
        let address_path = match &mapping.address_path {
            Some(path) => path,
            None => {
                return Err(ProxyError::AddressPathRequired);
            },
        };
        let chosen = match self.load_balancer.select_backend(
            &candidates,
            address_path.as_str(),
            opt_as_str(&mapping.address_type),
        ) {
            Ok(chosen) => chosen,
            Err(se) => {
                return Err(ProxyError::Select(se));
            },
        };
        endpoint_target(chosen, mapping, &self.data_ports)
    }

    /// How a client without session gets its target for a data port.
    pub fn default_route(
        &self,
        cache: &DefaultEndpointCacheHandle,
        proxy_port: u16,
        protocol: Protocol,
    ) -> (r: DefaultRoute)
        ensures
            r == spec_default_route(cache.cached(), proxy_port, protocol),
    {
        match cache.get_cache() {
            Some(endpoint) => if endpoint.port_mappings.contains_key(proxy_port, protocol) {
                DefaultRoute::Cached
            } else {
                DefaultRoute::Query { store: false }
            },
            None => DefaultRoute::Query { store: true },
        }
    }

    /// Establish a default session for a client. The target is the cached
    /// default endpoint where it serves the data port, else the endpoint
    /// `resolved`, which goes into an empty cache. A target without port for
    /// the data port is refused. Otherwise the client's session is replaced
    /// by a fresh one bound to the target, the target's address counts one
    /// more session, and the sockets of the session the client had are
    /// handed back to be shut down.
    pub fn establish_default_session(
        &mut self,
        sessions: &mut SessionManager,
        cache: &mut DefaultEndpointCacheHandle,
        client_addr: ClientAddr,
        proxy_port: u16,
        protocol: Protocol,
        resolved: Option<DefaultEndpointCache>,
        now: u64,
    ) -> (r: Result<Vec<SessionSocket>, ProxyError>)
        ensures
            final(self).config == old(self).config,
            final(self).data_ports == old(self).data_ports,
            final(self).load_balancer.spec_strategy() == old(self).load_balancer.spec_strategy(),
            final(sessions).timeout() == old(sessions).timeout(),
            final(sessions).next_id() == old(sessions).next_id(),
            Self::default_session_outcome(
                old(cache).cached(),
                match resolved {
                    Some(endpoint) => Some(endpoint@),
                    None => None,
                },
                client_addr,
                proxy_port,
                protocol,
                now,
                old(sessions).sessions(),
                old(self).load_balancer.counts(),
                final(cache).cached(),
                final(sessions).sessions(),
                final(self).load_balancer.counts(),
                match r {
                    Ok(closed) => Ok(closed@),
                    Err(e) => Err(e),
                },
            ),
    {
        let route = self.default_route(cache, proxy_port, protocol);
        let target: DefaultEndpointCache = match route {
            DefaultRoute::Cached => match cache.get_cache() {
                Some(endpoint) => endpoint.clone(),
                None => {
                    return Err(ProxyError::EndpointRequired);
                },
            },
            DefaultRoute::Query { store } => match resolved {
                Some(endpoint) => {
                    if store {
                        cache.set(endpoint.clone());
                    }
                    endpoint
                },
                None => {
                    return Err(ProxyError::EndpointRequired);
                },
            },
        };
        if !target.port_mappings.contains_key(proxy_port, protocol) {
            return Err(ProxyError::PortNotSupported { proxy_port, protocol });
        }
        let closed = sessions.upsert_multi_port(
            client_addr,
            target.address.clone(),
            target.port_mappings,
            now,
        );
        self.load_balancer.increment_session(target.address.as_str());
        Ok(closed)
    }

    /// What establishing a default session does: to the cache, to the
    /// session table, to the session counts, and what it answers.
    pub open spec fn default_session_outcome(
        cached: Option<EndpointView>,
        resolved: Option<EndpointView>,
        client_addr: ClientAddr,
        proxy_port: u16,
        protocol: Protocol,
        now: u64,
        sessions: Map<(u8, u128), SessionView>,
        counts: Map<Seq<char>, usize>,
        cached_after: Option<EndpointView>,
        sessions_after: Map<(u8, u128), SessionView>,
        counts_after: Map<Seq<char>, usize>,
        answer: Result<Seq<SessionSocket>, ProxyError>,
    ) -> bool {
        let route = spec_default_route(cached, proxy_port, protocol);
        let target = match route {
            DefaultRoute::Cached => cached,
            DefaultRoute::Query { .. } => resolved,
        };
        match target {
            None => {
                &&& answer == Err::<Seq<SessionSocket>, ProxyError>(ProxyError::EndpointRequired)
                &&& cached_after == cached
                &&& sessions_after == sessions
                &&& counts_after == counts
            },
            Some(endpoint) => {
                &&& cached_after == if route == (DefaultRoute::Query { store: true }) {
                    Some(endpoint)
                } else {
                    cached
                }
                &&& if endpoint.1.contains_key((proxy_port, protocol)) {
                    let key = client_addr.ip.spec_key();
                    &&& answer == Ok::<Seq<SessionSocket>, ProxyError>(
                        if sessions.contains_key(key) {
                            sessions[key].udp_sockets
                        } else {
                            Seq::empty()
                        },
                    )
                    &&& sessions_after == sessions.insert(
                        key,
                        fresh_session(endpoint.0, endpoint.1, now),
                    )
                    &&& counts_after == counts.insert(
                        endpoint.0,
                        if crate::load_balancer::spec_count(counts, endpoint.0) < usize::MAX {
                            (crate::load_balancer::spec_count(counts, endpoint.0) + 1) as usize
                        } else {
                            usize::MAX
                        },
                    )
                } else {
                    &&& answer == Err::<Seq<SessionSocket>, ProxyError>(
                        ProxyError::PortNotSupported { proxy_port, protocol },
                    )
                    &&& sessions_after == sessions
                    &&& counts_after == counts
                }
            },
        }
    }

    /// What a datagram from a client leads to: it is forwarded where the
    /// client has a session, else a default session is established first.
    pub fn handle_udp_data_packet(&self, sessions: &SessionManager, client_addr: ClientAddr) -> (r:
        PacketPlan)
        ensures
            r == if sessions.session_of(client_addr.ip) is Some {
                PacketPlan::Forward
            } else {
                PacketPlan::EstablishDefault
            },
    {
        match sessions.get_by_addr(&client_addr) {
            Some(_) => PacketPlan::Forward,
            None => PacketPlan::EstablishDefault,
        }
    }

    /// Route a datagram of a client with a session: the target is the
    /// session's backend with its port for the data port, and the datagram
    /// goes out on the session's ephemeral socket for the data port, which
    /// is registered if there was none. The client's source port is recorded.
    pub fn proxy_packet_bidirectional(
        &self,
        sessions: &mut SessionManager,
        client_addr: ClientAddr,
        proxy_port: u16,
    ) -> (r: Result<UdpRoute, ProxyError>)
        ensures
            final(sessions).timeout() == old(sessions).timeout(),
            match old(sessions).session_of(client_addr.ip) {
                None => r == Err::<UdpRoute, ProxyError>(ProxyError::SessionNotFound)
                    && final(sessions).sessions() == old(sessions).sessions()
                    && final(sessions).next_id() == old(sessions).next_id(),
                Some(session) => if session.port_mappings.contains_key((proxy_port, Protocol::Udp)) {
                    &&& r matches Ok(route)
                    &&& route.target.ip@ == session.target_ip
                    &&& route.target.port == session.port_mappings[(proxy_port, Protocol::Udp)]
                    &&& route.socket == crate::session::spec_socket_use(
                        session,
                        proxy_port,
                        client_addr.port,
                        old(sessions).next_id(),
                    )
                    &&& final(sessions).sessions() == old(sessions).sessions().insert(
                        client_addr.ip.spec_key(),
                        crate::session::spec_session_after_use(
                            session,
                            proxy_port,
                            client_addr.port,
                            old(sessions).next_id(),
                        ),
                    )
                    &&& final(sessions).next_id() == crate::session::spec_next_id(
                        old(sessions).next_id(),
                        route.socket.created,
                    )
                } else {
                    &&& r == Err::<UdpRoute, ProxyError>(
                        ProxyError::Target(
                            AddrError::NoPortMapping { proxy_port, protocol: Protocol::Udp },
                        ),
                    )
                    &&& final(sessions).sessions() == old(sessions).sessions()
                    &&& final(sessions).next_id() == old(sessions).next_id()
                },
            },
    {
        let session = match sessions.get_by_addr(&client_addr) {
            Some(session) => session,
            None => {
                return Err(ProxyError::SessionNotFound);
            },
        };
        let target = match session.get_target_addr(proxy_port, Protocol::Udp) {
            Ok(target) => target,
            Err(e) => {
                return Err(ProxyError::Target(e));
            },
        };
        match sessions.get_or_create_udp_socket(client_addr, proxy_port) {
            Some(socket) => Ok(UdpRoute { target, socket }),
            None => Err(ProxyError::SessionNotFound),
        }
    }

    /// Route a stream connection of a client with a session: the target
    /// is the session's backend with its port for the data port.
    pub fn handle_tcp_connection(
        &self,
        sessions: &SessionManager,
        client_addr: ClientAddr,
        proxy_port: u16,
    ) -> (r: Result<TargetAddr, ProxyError>)
        ensures
            match sessions.session_of(client_addr.ip) {
                None => r == Err::<TargetAddr, ProxyError>(ProxyError::SessionNotFound),
                Some(session) => if session.port_mappings.contains_key((proxy_port, Protocol::Tcp)) {
                    &&& r matches Ok(target)
                    &&& target.ip@ == session.target_ip
                    &&& target.port == session.port_mappings[(proxy_port, Protocol::Tcp)]
                } else {
                    r == Err::<TargetAddr, ProxyError>(
                        ProxyError::Target(
                            AddrError::NoPortMapping { proxy_port, protocol: Protocol::Tcp },
                        ),
                    )
                },
            },
    {
        let session = match sessions.get_by_addr(&client_addr) {
            Some(session) => session,
            None => {
                return Err(ProxyError::SessionNotFound);
            },
        };
        match session.get_target_addr(proxy_port, Protocol::Tcp) {
            Ok(target) => Ok(target),
            Err(e) => Err(ProxyError::Target(e)),
        }
    }

    /// Examine a datagram as a control packet. With magic bytes
    /// configured, a datagram that begins with them carries a token after
    /// them: a valid token resets the client's session to the token's
    /// target, any other is dropped.
    pub fn handle_control_packet(
        &self,
        tokens: &TokenCache,
        sessions: &mut SessionManager,
        magic: &Vec<u8>,
        packet: &Vec<u8>,
        client_addr: ClientAddr,
        now: u64,
    ) -> (r: ControlOutcome)
        ensures
            final(sessions).timeout() == old(sessions).timeout(),
            final(sessions).next_id() == old(sessions).next_id(),
            match spec_control_token(magic@, packet@) {
                None => r is NotControl && final(sessions).sessions() == old(sessions).sessions(),
                Some(token) => match tokens.live_bytes_at(token, now) {
                    None => r is InvalidToken && final(sessions).sessions() == old(
                        sessions,
                    ).sessions(),
                    Some(target) => {
                        &&& r matches ControlOutcome::Reset(closed)
                        &&& closed@ == match old(sessions).session_of(client_addr.ip) {
                            Some(session) => session.udp_sockets,
                            None => Seq::<SessionSocket>::empty(),
                        }
                        &&& final(sessions).sessions() == old(sessions).sessions().insert(
                            client_addr.ip.spec_key(),
                            fresh_session(target.cluster_ip@, target.port_mappings@, now),
                        )
                    },
                },
            },
    {
        let token = match control_token(magic, packet) {
            Some(token) => token,
            None => {
                return ControlOutcome::NotControl;
            },
        };
        match tokens.lookup_bytes(&token, now) {
            Some(target) => {
                let closed = sessions.upsert_multi_port(
                    client_addr,
                    target.cluster_ip.clone(),
                    target.port_mappings.clone(),
                    now,
                );
                ControlOutcome::Reset(closed)
            },
            None => ControlOutcome::InvalidToken,
        }
    }
}

} // verus!
