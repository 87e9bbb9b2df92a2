//! The query responder's decisions: what a query or a reset request does and
//! what is answered.

use vstd::prelude::*;
use vstd::string::StringExecFns;
use crate::config::{Config, DataPortConfig, Protocol, ResourceMapping};
use crate::k8s_client::{
    deref_all, named_ports_view, spec_extract_address, spec_extract_port, spec_find_service,
    spec_first_port_error, spec_kept, spec_named_ports, K8sClient, Resource, ServiceRecord,
    StatusFilterView,
};
use crate::load_balancer::LoadBalancer;
use crate::port_map::PortMap;
use crate::proxy::{named_port_map, spec_named_port_map};
use crate::session::{
    fresh_session, single_port_map, ClientAddr, SessionManager, SessionSocket, SessionView,
};
use crate::text::{opt_as_str, opt_string_view, spec_lookup};
use crate::token_cache::{TokenCache, TokenTarget};

verus! {

/// Status query of a request.
#[derive(Debug)]
pub struct StatusQueryDto {
    pub json_path: String,
    pub expected_values: Vec<String>,
}

/// Query request from a client.
#[derive(Debug)]
pub enum QueryRequest {
    /// Query for a resource and establish a session.
    Query {
        resource_type: String,
        namespace: String,
        status_query: Option<StatusQueryDto>,
        label_selector: Option<Vec<(String, String)>>,
    },
    /// Reset the client's session to the target of a token.
    SessionReset { token: String },
}

/// Query response to a client.
#[derive(Debug)]
pub enum QueryResponse {
    /// A single-port target was bound.
    Success { token: String },
    /// A multi-port target was bound.
    SuccessMultiPort { token: String, address: String, ports: Vec<(String, u16)> },
    /// The request failed.
    Error { error: String },
}

/// What a request did: the response, and the sockets to shut down.
pub struct QueryOutcome {
    pub response: QueryResponse,
    /// The sockets of the session that the client had before.
    pub closed: Vec<SessionSocket>,
}

/// What a request needs before it can be processed.
#[derive(Debug, Clone, Copy, PartialEq, Eq, Structural)]
pub enum QueryPlan {
    /// A reset request: nothing is needed.
    Reset,
    /// A query for a resource type without mapping: nothing is needed.
    UnknownResourceType,
    /// A query: the resources of the mapping are needed, and `services`
    /// says whether the services of the namespace are needed too.
    List { services: bool },
}

/// The target that a query resolved.
pub struct QueryTarget {
    pub address: String,
    pub port_mappings: PortMap,
    /// The named ports of a multi-port target.
    pub ports: Option<Vec<(String, u16)>>,
}

/// A resolved target as contracts speak of it.
pub struct QueryTargetView {
    pub address: Seq<char>,
    pub port_mappings: Map<(u16, Protocol), u16>,
    pub ports: Option<Seq<(Seq<char>, u16)>>,
}

impl View for QueryTarget {
    type V = QueryTargetView;

    open spec fn view(&self) -> QueryTargetView {
        QueryTargetView {
            address: self.address@,
            port_mappings: self.port_mappings@,
            ports: match self.ports {
                Some(ports) => Some(named_ports_view(ports@)),
                None => None,
            },
        }
    }
}

/// The status filter of a request.
pub open spec fn status_dto_view(query: Option<StatusQueryDto>) -> StatusFilterView {
    match query {
        Some(q) => Some((q.json_path@, q.expected_values@)),
        None => None,
    }
}

/// The name of a resource, `unknown` where it has none.
pub open spec fn spec_resource_name(resource: Resource) -> Seq<char> {
    match resource.name {
        Some(name) => name@,
        None => "unknown"@,
    }
}

/// What is listed, or the text of the orchestrator's failure, as contracts speak of it.
pub open spec fn listing_view<T>(listed: Result<&Vec<T>, &str>) -> Result<Seq<T>, Seq<char>> {
    match listed {
        Ok(items) => Ok(items@),
        Err(text) => Err(text@),
    }
}

/// The target that a resource offers to a query under a mapping, or the
/// message of the failure. With named ports the target has the resource's
/// address and its ports by name. Without, and with an address path, it has
/// the resource's address and its one port. Without address path it is the
/// target of the service for the resource.
pub open spec fn spec_query_target(
    resource: Resource,
    mapping: ResourceMapping,
    data_ports: Seq<DataPortConfig>,
    services: Option<Result<Seq<ServiceRecord>, Seq<char>>>,
) -> Result<QueryTargetView, Seq<char>> {
    let document = resource.document;
    match mapping.ports {
        Some(named) => match mapping.address_path {
            None => Err("address_path is required for multi-port approach"@),
            Some(path) => match spec_extract_address(
                document,
                path@,
                opt_string_view(mapping.address_type),
            ) {
                Err(e) => Err("Failed to extract address: "@ + e.spec_message()),
                Ok(address) => match spec_first_port_error(document, named@) {
                    Some(e) => Err("Failed to extract ports: "@ + e.spec_message()),
                    None => Ok(
                        QueryTargetView {
                            address,
                            port_mappings: spec_named_port_map(data_ports, document, named@),
                            ports: Some(spec_named_ports(document, named@)),
                        },
                    ),
                },
            },
        },
        None => match mapping.address_path {
            Some(path) => match spec_extract_address(
                document,
                path@,
                opt_string_view(mapping.address_type),
            ) {
                Err(e) => Err("Failed to extract address: "@ + e.spec_message()),
                Ok(address) => match spec_extract_port(
                    document,
                    opt_string_view(mapping.port_path),
                    opt_string_view(mapping.port_name),
                ) {
                    Err(e) => Err("Failed to extract port: "@ + e.spec_message()),
                    Ok(port) => Ok(
                        QueryTargetView {
                            address,
                            port_mappings: single_port_map(port),
                            ports: None,
                        },
                    ),
                },
            },
            None => match mapping.service_selector_label {
                None => Err("service_selector_label is required for service-based approach"@),
                Some(selector) => match mapping.service_target_port_name {
                    None => Err(
                        "service_target_port_name is required for service-based approach"@,
                    ),
                    Some(port_name) => match services {
                        None => Err("Failed to find service: services were not listed"@),
                        Some(Err(text)) => Err("Failed to find service: "@ + text),
                        Some(Ok(listed)) => match spec_find_service(
                            listed,
                            spec_resource_name(resource),
                            selector@,
                            port_name@,
                        ) {
                            None => Err(
                                "No service found for resource: "@ + spec_resource_name(resource),
                            ),
                            Some((address, port)) => Ok(
                                QueryTargetView {
                                    address,
                                    port_mappings: single_port_map(port),
                                    ports: None,
                                },
                            ),
                        },
                    },
                },
            },
        },
    }
}

/// A resolved target or the message of the failure, as contracts speak of it.
pub open spec fn target_view(resolved: Result<QueryTarget, String>) -> Result<
    QueryTargetView,
    Seq<char>,
> {
    match resolved {
        Ok(target) => Ok(target@),
        Err(text) => Err(text@),
    }
}

/// The services listed, if any were asked for, as contracts speak of them.
pub open spec fn services_view(services: Option<Result<&Vec<ServiceRecord>, &str>>) -> Option<
    Result<Seq<ServiceRecord>, Seq<char>>,
> {
    match services {
        Some(s) => Some(listing_view(s)),
        None => None,
    }
}

/// A message: a fixed beginning and a detail.
fn message(begin: &str, detail: &str) -> (r: String)
    ensures
        r@ == begin@ + detail@,
{
    let mut s = String::from_str(begin);
    s.append(detail);
    s
}

/// The name of a resource, `unknown` where it has none.
pub fn resource_name(resource: &Resource) -> (r: String)
    ensures
        r@ == spec_resource_name(*resource),
{
    match &resource.name {
        Some(name) => name.clone(),
        None => String::from_str("unknown"),
    }
}

/// Reads the target that a resource offers to a query under a mapping.
pub fn query_target(
    resource: &Resource,
    mapping: &ResourceMapping,
    data_ports: &Vec<DataPortConfig>,
    services: Option<Result<&Vec<ServiceRecord>, &str>>,
) -> (r: Result<QueryTarget, String>)
    ensures
        spec_query_target(*resource, *mapping, data_ports@, services_view(services)) == target_view(
            r,
        ),
{
    let client = K8sClient::new();
    match &mapping.ports {
        Some(named) => {
            let path = match &mapping.address_path {
                Some(path) => path,
                None => {
                    return Err(String::from_str("address_path is required for multi-port approach"));
                },
            };
            let address = match client.extract_address(
                resource,
                path.as_str(),
                opt_as_str(&mapping.address_type),
            ) {
                Ok(address) => address,
                Err(e) => {
                    return Err(message("Failed to extract address: ", e.message()));
                },
            };
            let (ports, port_mappings) = match named_port_map(resource, named, data_ports) {
                Ok(read) => read,
                Err(e) => {
                    return Err(message("Failed to extract ports: ", e.message()));
                },
            };
            Ok(QueryTarget { address, port_mappings, ports: Some(ports) })
        },
        None => match &mapping.address_path {
            Some(path) => {
                let address = match client.extract_address(
                    resource,
                    path.as_str(),
                    opt_as_str(&mapping.address_type),
                ) {
                    Ok(address) => address,
                    Err(e) => {
                        return Err(message("Failed to extract address: ", e.message()));
                    },
                };
                let port = match client.extract_port(
                    resource,
                    opt_as_str(&mapping.port_path),
                    opt_as_str(&mapping.port_name),
                ) {
                    Ok(port) => port,
                    Err(e) => {
                        return Err(message("Failed to extract port: ", e.message()));
                    },
                };
                let mut port_mappings = PortMap::new();
                port_mappings.insert(port, Protocol::Udp, port);
                Ok(QueryTarget { address, port_mappings, ports: None })
            },
            None => {
                let selector = match &mapping.service_selector_label {
                    Some(selector) => selector,
                    None => {
                        return Err(
                            String::from_str(
                                "service_selector_label is required for service-based approach",
                            ),
                        );
                    },
                };
                let port_name = match &mapping.service_target_port_name {
                    Some(port_name) => port_name,
                    None => {
                        return Err(
                            String::from_str(
                                "service_target_port_name is required for service-based approach",
                            ),
                        );
                    },
                };
                let listed = match services {
                    None => {
                        return Err(
                            String::from_str("Failed to find service: services were not listed"),
                        );
                    },
                    Some(Err(text)) => {
                        return Err(message("Failed to find service: ", text));
                    },
                    Some(Ok(listed)) => listed,
                };
                let name = resource_name(resource);
                match client.find_service_for_resource(
                    listed,
                    name.as_str(),
                    selector.as_str(),
                    port_name.as_str(),
                ) {
                    Some((address, port)) => {
                        let mut port_mappings = PortMap::new();
                        port_mappings.insert(port, Protocol::Udp, port);
                        Ok(QueryTarget { address, port_mappings, ports: None })
                    },
                    None => Err(message("No service found for resource: ", name.as_str())),
                }
            },
        },
    }
}

/// The token of a response that has one.
pub open spec fn response_token(response: QueryResponse) -> Option<Seq<char>> {
    match response {
        QueryResponse::Success { token } => Some(token@),
        QueryResponse::SuccessMultiPort { token, .. } => Some(token@),
        QueryResponse::Error { .. } => None,
    }
}

/// The sockets of the session that a client has, none where it has no session.
pub open spec fn sockets_of(sessions: Map<(u8, u128), SessionView>, client_addr: ClientAddr) -> Seq<
    SessionSocket,
> {
    if sessions.contains_key(client_addr.ip.spec_key()) {
        sessions[client_addr.ip.spec_key()].udp_sockets
    } else {
        Seq::empty()
    }
}

/// Query server: the decisions for the query channel.
pub struct QueryServer {
    pub port: u16,
    pub config: Config,
    pub data_ports: Vec<DataPortConfig>,
}

impl QueryServer {
    /// Create a new query server for a port and a configuration.
    pub fn new(port: u16, config: Config) -> (r: Self)
        ensures
            r.port == port,
            r.config == config,
            config.spec_data_ports(r.data_ports@),
    {
        let data_ports = config.get_data_ports();
        QueryServer { port, config, data_ports }
    }

    /// What a request needs before it can be processed.
    pub fn plan_query(&self, request: &QueryRequest) -> (r: QueryPlan)
        ensures
            r == match *request {
                QueryRequest::SessionReset { .. } => QueryPlan::Reset,
                QueryRequest::Query { resource_type, .. } => match spec_lookup(
                    self.config.resource_query_mapping@,
                    resource_type@,
                ) {
                    None => QueryPlan::UnknownResourceType,
                    Some(mapping) => QueryPlan::List {
                        services: mapping.ports is None && mapping.address_path is None,
                    },
                },
            },
    {
        match request {
            QueryRequest::SessionReset { .. } => QueryPlan::Reset,
            QueryRequest::Query { resource_type, .. } => match self.config.find_mapping(
                resource_type.as_str(),
            ) {
                None => QueryPlan::UnknownResourceType,
                Some(mapping) => QueryPlan::List {
                    services: mapping.ports.is_none() && mapping.address_path.is_none(),
                },
            },
        }
    }

    /// Process a session reset request. A token that is held and valid
    /// at `now` resets the client's session to the token's target, and the
    /// token is the answer; any other token is answered with an error and
    /// changes nothing.
    pub fn process_session_reset(
        &self,
        token: String,
        tokens: &TokenCache,
        sessions: &mut SessionManager,
        client_addr: ClientAddr,
        now: u64,
    ) -> (r: QueryOutcome)
        ensures
            final(sessions).timeout() == old(sessions).timeout(),
            final(sessions).next_id() == old(sessions).next_id(),
            match tokens.live_at(token@, now) {
                Some(target) => {
                    &&& r.response matches QueryResponse::Success { token: answered }
                    &&& answered@ == token@
                    &&& r.closed@ == sockets_of(old(sessions).sessions(), client_addr)
                    &&& final(sessions).sessions() == old(sessions).sessions().insert(
                        client_addr.ip.spec_key(),
                        fresh_session(target.cluster_ip@, target.port_mappings@, now),
                    )
                },
                None => {
                    &&& r.response matches QueryResponse::Error { error }
                    &&& error@ == "Invalid or expired token"@
                    &&& r.closed@ == Seq::<SessionSocket>::empty()
                    &&& final(sessions).sessions() == old(sessions).sessions()
                },
            },
    {
        match tokens.lookup(token.as_str(), now) {
            Some(target) => {
                let closed = sessions.upsert_multi_port(
                    client_addr,
                    target.cluster_ip.clone(),
                    target.port_mappings.clone(),
                    now,
                );
                QueryOutcome { response: QueryResponse::Success { token }, closed }
            },
            None => QueryOutcome {
                response: QueryResponse::Error {
                    error: String::from_str("Invalid or expired token"),
                },
                closed: Vec::new(),
            },
        }
    }

    /// Whether `target` is what a query resolves to: the target of the
    /// candidate chosen among the resources listed, or the message of the
    /// failure. The candidates are the resources that match the status
    /// query. With an address path in the mapping the load balancer chooses;
    /// without, the first candidate is taken.
    pub open spec fn resolves(
        &self,
        load_balancer: &LoadBalancer,
        resource_type: Seq<char>,
        status: StatusFilterView,
        listed: Result<Seq<Resource>, Seq<char>>,
        services: Option<Result<Seq<ServiceRecord>, Seq<char>>>,
        target: Result<QueryTargetView, Seq<char>>,
    ) -> bool {
        match spec_lookup(self.config.resource_query_mapping@, resource_type) {
            None => target == Err::<QueryTargetView, Seq<char>>("Unknown resource type"@),
            Some(mapping) => match listed {
                Err(text) => target == Err::<QueryTargetView, Seq<char>>(
                    "Failed to query resources: "@ + text,
                ),
                Ok(items) => {
                    let candidates = spec_kept(items, status, None);
                    if candidates.len() == 0 {
                        target == Err::<QueryTargetView, Seq<char>>("No matching resources found"@)
                    } else {
                        match mapping.address_path {
                            Some(path) => {
                                ||| exists|se: crate::load_balancer::SelectError|
                                    #[trigger] load_balancer.refuses(
                                        candidates,
                                        path@,
                                        opt_string_view(mapping.address_type),
                                        se,
                                    ) && target == Err::<QueryTargetView, Seq<char>>(
                                        se.spec_message(),
                                    )
                                ||| exists|i: int|
                                    #[trigger] load_balancer.selects(
                                        candidates,
                                        path@,
                                        opt_string_view(mapping.address_type),
                                        i,
                                    ) && target == spec_query_target(
                                        candidates[i],
                                        mapping,
                                        self.data_ports@,
                                        services,
                                    )
                            },
                            None => target == spec_query_target(
                                candidates[0],
                                mapping,
                                self.data_ports@,
                                services,
                            ),
                        }
                    }
                },
            },
        }
    }

    /// Resolve the target of a query from the resources that the
    /// orchestrator listed for it.
    pub fn resolve_query(
        &self,
        load_balancer: &LoadBalancer,
        resource_type: &str,
        status_query: &Option<StatusQueryDto>,
        listed: Result<&Vec<Resource>, &str>,
        services: Option<Result<&Vec<ServiceRecord>, &str>>,
    ) -> (r: Result<QueryTarget, String>)
        ensures
            self.resolves(
                load_balancer,
                resource_type@,
                status_dto_view(*status_query),
                listing_view(listed),
                services_view(services),
                target_view(r),
            ),
    {
        let mapping = match self.config.find_mapping(resource_type) {
            Some(mapping) => mapping,
            None => {
                return Err(String::from_str("Unknown resource type"));
            },
        };
        let items = match listed {
            Ok(items) => items,
            Err(text) => {
                return Err(message("Failed to query resources: ", text));
            },
        };
        let status: Option<(&str, &Vec<String>)> = match status_query {
            Some(q) => Some((q.json_path.as_str(), &q.expected_values)),
            None => None,
        };
        let client = K8sClient::new();
        let candidates = client.query_resources(items, status, None);
        assert(deref_all(candidates@) == spec_kept(items@, status_dto_view(*status_query), None));
        if candidates.len() == 0 {
            return Err(String::from_str("No matching resources found"));
        }
        let chosen: &Resource = match &mapping.address_path {
            Some(path) => match load_balancer.select_backend(
                &candidates,
                path.as_str(),
                opt_as_str(&mapping.address_type),
            ) {
                Ok(chosen) => chosen,
                Err(se) => {
                    return Err(String::from_str(se.message()));
                },
            },
            None => {
                assert(deref_all(candidates@)[0] == *candidates@[0]);
                candidates[0]
            },
        };
        query_target(chosen, mapping, &self.data_ports, services)
    }

    /// What a query does once its target is resolved. A failure is
    /// answered with its message and changes nothing. A target is bound:
    /// a token is minted for it at `now`, the client's session is replaced
    /// by a fresh one bound to it, and the answer carries the token, with
    /// the address and the named ports for a multi-port target.
    pub open spec fn answers(
        target: Result<QueryTargetView, Seq<char>>,
        client_addr: ClientAddr,
        now: u64,
        tokens: TokenCache,
        sessions: Map<(u8, u128), SessionView>,
        tokens_after: TokenCache,
        sessions_after: Map<(u8, u128), SessionView>,
        outcome: QueryOutcome,
    ) -> bool {
        match target {
            Err(text) => {
                &&& outcome.response matches QueryResponse::Error { error }
                &&& error@ == text
                &&& outcome.closed@ == Seq::<SessionSocket>::empty()
                &&& sessions_after == sessions
                &&& forall|token: Seq<char>| #[trigger]
                    tokens_after.holds(token) == tokens.holds(token)
            },
            Ok(bound) => {
                &&& match bound.ports {
                    Some(ports) => {
                        &&& outcome.response matches QueryResponse::SuccessMultiPort {
                            address,
                            ports: answered,
                            ..
                        }
                        &&& address@ == bound.address
                        &&& named_ports_view(answered@) == ports
                    },
                    None => outcome.response is Success,
                }
                &&& response_token(outcome.response) matches Some(token)
                &&& crate::token_cache::is_hyphenated(token)
                &&& tokens_after.holds(token) matches Some((held, minted_at))
                &&& minted_at == now
                &&& held.cluster_ip@ == bound.address
                &&& held.port_mappings@ == bound.port_mappings
                &&& forall|other: Seq<char>|
                    other != token ==> #[trigger] tokens_after.holds(other) == tokens.kept_at(
                        other,
                        now,
                    )
                &&& outcome.closed@ == sockets_of(sessions, client_addr)
                &&& sessions_after == sessions.insert(
                    client_addr.ip.spec_key(),
                    fresh_session(bound.address, bound.port_mappings, now),
                )
            },
        }
    }

    /// Binds a resolved target for a client, or answers the failure.
    pub fn answer_query(
        &self,
        resolved: Result<QueryTarget, String>,
        tokens: &mut TokenCache,
        sessions: &mut SessionManager,
        client_addr: ClientAddr,
        now: u64,
    ) -> (r: QueryOutcome)
        ensures
            final(tokens).ttl() == old(tokens).ttl(),
            final(sessions).timeout() == old(sessions).timeout(),
            final(sessions).next_id() == old(sessions).next_id(),
            Self::answers(
                target_view(resolved),
                client_addr,
                now,
                *old(tokens),
                old(sessions).sessions(),
                *final(tokens),
                final(sessions).sessions(),
                r,
            ),
    {
        match resolved {
            Err(error) => QueryOutcome {
                response: QueryResponse::Error { error },
                closed: Vec::new(),
            },
            Ok(target) => {
                let token_target = TokenTarget::multi_port(
                    target.address.clone(),
                    target.port_mappings.clone(),
                );
                let token = tokens.generate_token(token_target, now);
                let closed = sessions.upsert_multi_port(
                    client_addr,
                    target.address.clone(),
                    target.port_mappings,
                    now,
                );
                let response = match target.ports {
                    Some(ports) => QueryResponse::SuccessMultiPort {
                        token,
                        address: target.address,
                        ports,
                    },
                    None => QueryResponse::Success { token },
                };
                QueryOutcome { response, closed }
            },
        }
    }

    /// Process a resource query request: resolve the target from the
    /// resources listed, then bind it for the client or answer the failure.
    pub fn process_resource_query(
        &self,
        load_balancer: &LoadBalancer,
        resource_type: &str,
        status_query: &Option<StatusQueryDto>,
        listed: Result<&Vec<Resource>, &str>,
        services: Option<Result<&Vec<ServiceRecord>, &str>>,
        tokens: &mut TokenCache,
        sessions: &mut SessionManager,
        client_addr: ClientAddr,
        now: u64,
    ) -> (r: QueryOutcome)
        ensures
            final(tokens).ttl() == old(tokens).ttl(),
            final(sessions).timeout() == old(sessions).timeout(),
            final(sessions).next_id() == old(sessions).next_id(),
            exists|target: Result<QueryTargetView, Seq<char>>|
                #[trigger] self.resolves(
                    load_balancer,
                    resource_type@,
                    status_dto_view(*status_query),
                    listing_view(listed),
                    services_view(services),
                    target,
                ) && Self::answers(
                    target,
                    client_addr,
                    now,
                    *old(tokens),
                    old(sessions).sessions(),
                    *final(tokens),
                    final(sessions).sessions(),
                    r,
                ),
    {
        let resolved = self.resolve_query(
            load_balancer,
            resource_type,
            status_query,
            listed,
            services,
        );
        let ghost target = target_view(resolved);
        let outcome = self.answer_query(resolved, tokens, sessions, client_addr, now);
        assert(self.resolves(
            load_balancer,
            resource_type@,
            status_dto_view(*status_query),
            listing_view(listed),
            services_view(services),
            target,
        ));
        outcome
    }

    /// Process a request: a reset request resets the client's session,
    /// a query resolves and binds a target.
    pub fn process_query(
        &self,
        request: QueryRequest,
        load_balancer: &LoadBalancer,
        listed: Result<&Vec<Resource>, &str>,
        services: Option<Result<&Vec<ServiceRecord>, &str>>,
        tokens: &mut TokenCache,
        sessions: &mut SessionManager,
        client_addr: ClientAddr,
        now: u64,
    ) -> (r: QueryOutcome)
        ensures
            final(tokens).ttl() == old(tokens).ttl(),
            final(sessions).timeout() == old(sessions).timeout(),
            final(sessions).next_id() == old(sessions).next_id(),
            match request {
                QueryRequest::SessionReset { token } => {
                    &&& forall|t: Seq<char>| #[trigger] final(tokens).holds(t) == old(tokens).holds(t)
                    &&& match old(tokens).live_at(token@, now) {
                        Some(target) => {
                            &&& r.response matches QueryResponse::Success { token: answered }
                            &&& answered@ == token@
                            &&& r.closed@ == sockets_of(old(sessions).sessions(), client_addr)
                            &&& final(sessions).sessions() == old(sessions).sessions().insert(
                                client_addr.ip.spec_key(),
                                fresh_session(target.cluster_ip@, target.port_mappings@, now),
                            )
                        },
                        None => {
                            &&& r.response matches QueryResponse::Error { error }
                            &&& error@ == "Invalid or expired token"@
                            &&& r.closed@ == Seq::<SessionSocket>::empty()
                            &&& final(sessions).sessions() == old(sessions).sessions()
                        },
                    }
                },
                QueryRequest::Query { resource_type, status_query, .. } => exists|
                    target: Result<QueryTargetView, Seq<char>>,
                |
                    #[trigger] self.resolves(
                        load_balancer,
                        resource_type@,
                        status_dto_view(status_query),
                        listing_view(listed),
                        services_view(services),
                        target,
                    ) && Self::answers(
                        target,
                        client_addr,
                        now,
                        *old(tokens),
                        old(sessions).sessions(),
                        *final(tokens),
                        final(sessions).sessions(),
                        r,
                    ),
            },
    {
        match request {
            QueryRequest::SessionReset { token } => self.process_session_reset(
                token,
                tokens,
                sessions,
                client_addr,
                now,
            ),
            QueryRequest::Query { resource_type, status_query, .. } => {
                self.process_resource_query(
                    load_balancer,
                    resource_type.as_str(),
                    &status_query,
                    listed,
                    services,
                    tokens,
                    sessions,
                    client_addr,
                    now,
                )
            },
        }
    }
}

} // verus!
