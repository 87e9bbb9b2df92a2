use udp_director::config::{
    Config, DataPortConfig, DefaultEndpoint, PortMapping, Protocol, ResourceMapping,
    StatusQueryConfig,
};
use udp_director::json::{JsonNumber, JsonValue};
use udp_director::k8s_client::{Resource, ServicePort, ServiceRecord, ServiceSpec};
use udp_director::load_balancer::{
    LoadBalancer, LoadBalancingConfig, LoadBalancingStrategy, SelectError,
};
use udp_director::proxy::{
    control_token, endpoint_target, uniform_port_map, ControlOutcome, DataProxy,
    DefaultEndpointCacheHandle, DefaultRoute, PacketPlan, ProxyError,
};
use udp_director::query_server::{
    QueryPlan, QueryRequest, QueryResponse, QueryServer, StatusQueryDto,
};
use udp_director::resource_monitor::{describe, MonitorChange, ResourceMonitor};
use udp_director::session::{ClientAddr, IpAddress, SessionManager};
use udp_director::token_cache::{AddrError, TokenCache, TokenTarget};
use udp_director::k8s_client::ExtractError;

fn text(s: &str) -> JsonValue {
    JsonValue::Text(s.to_string())
}

fn num(n: u64) -> JsonValue {
    JsonValue::Number(JsonNumber { as_u64: Some(n), text: n.to_string() })
}

fn obj(members: Vec<(&str, JsonValue)>) -> JsonValue {
    JsonValue::Object(members.into_iter().map(|(k, v)| (k.to_string(), v)).collect())
}

fn pod(name: &str, ip: &str, ports: Vec<(&str, u64)>, state: &str) -> Resource {
    Resource {
        name: Some(name.to_string()),
        labels: Some(Vec::new()),
        annotations: None,
        document: obj(vec![
            ("metadata", obj(vec![("name", text(name))])),
            (
                "spec",
                obj(vec![(
                    "containers",
                    JsonValue::Array(vec![obj(vec![(
                        "ports",
                        JsonValue::Array(
                            ports
                                .into_iter()
                                .map(|(n, p)| obj(vec![("name", text(n)), ("containerPort", num(p))]))
                                .collect(),
                        ),
                    )])]),
                )]),
            ),
            ("status", obj(vec![("podIP", text(ip)), ("state", text(state))])),
        ]),
    }
}

fn single_port_mapping() -> ResourceMapping {
    ResourceMapping {
        group: String::new(),
        version: "v1".to_string(),
        resource: "pods".to_string(),
        service_selector_label: None,
        service_target_port_name: None,
        address_path: Some("status.podIP".to_string()),
        address_type: None,
        port_path: None,
        port_name: Some("game-udp".to_string()),
        ports: None,
    }
}

fn multi_port_mapping() -> ResourceMapping {
    let mut mapping = single_port_mapping();
    mapping.port_name = None;
    mapping.ports = Some(vec![
        PortMapping {
            name: "game".to_string(),
            port_name: Some("game-udp".to_string()),
            port_path: None,
        },
        PortMapping {
            name: "query".to_string(),
            port_name: Some("query-udp".to_string()),
            port_path: None,
        },
    ]);
    mapping
}

fn config(data_ports: Vec<(u16, Protocol, &str)>, mapping: ResourceMapping) -> Config {
    Config {
        query_port: 9000,
        data_port: None,
        data_ports: Some(
            data_ports
                .into_iter()
                .map(|(port, protocol, name)| DataPortConfig {
                    port,
                    protocol,
                    name: name.to_string(),
                })
                .collect(),
        ),
        default_endpoint: DefaultEndpoint {
            resource_type: "gameserver".to_string(),
            namespace: "ns".to_string(),
            label_selector: None,
            status_query: None,
            annotation_selector: None,
        },
        token_ttl_seconds: 30,
        session_timeout_seconds: 300,
        control_packet_magic_bytes: "FFFFFFFF5245534554".to_string(),
        resource_query_mapping: vec![("gameserver".to_string(), mapping)],
        load_balancing: LoadBalancingConfig::default(),
    }
}

fn single_port_config() -> Config {
    config(vec![(7777, Protocol::Udp, "default")], single_port_mapping())
}

fn multi_port_config() -> Config {
    config(vec![(7777, Protocol::Udp, "game"), (27015, Protocol::Udp, "query")], multi_port_mapping())
}

fn query(resource_type: &str) -> QueryRequest {
    QueryRequest::Query {
        resource_type: resource_type.to_string(),
        namespace: "ns".to_string(),
        status_query: None,
        label_selector: None,
    }
}

fn client(port: u16) -> ClientAddr {
    ClientAddr { ip: IpAddress::v4(1, 2, 3, 4), port }
}

fn error_of(response: &QueryResponse) -> String {
    match response {
        QueryResponse::Error { error } => error.clone(),
        other => panic!("expected an error, got {:?}", other),
    }
}

#[test]
fn single_port_happy_path_and_reset() {
    let server = QueryServer::new(9000, single_port_config());
    let proxy = DataProxy::new(single_port_config());
    let lb = LoadBalancer::new(LoadBalancingStrategy::LeastSessions);
    let mut tokens = TokenCache::new(30);
    let mut sessions = SessionManager::new(300);
    let listed = vec![pod("pod-1", "10.0.0.1", vec![("game-udp", 7777)], "Ready")];

    let request = query("gameserver");
    assert_eq!(server.plan_query(&request), QueryPlan::List { services: false });
    let outcome = server.process_query(
        request,
        &lb,
        Ok(&listed),
        None,
        &mut tokens,
        &mut sessions,
        client(50000),
        0,
    );
    let token = match outcome.response {
        QueryResponse::Success { token } => token,
        other => panic!("expected a token, got {:?}", other),
    };
    assert_eq!(token.len(), 36);
    assert!(outcome.closed.is_empty());
    assert_eq!(tokens.lookup(&token, 0).unwrap().cluster_ip, "10.0.0.1");

    // a datagram from 1.2.3.4:10000 on the data port goes to 10.0.0.1:7777
    assert_eq!(proxy.handle_udp_data_packet(&sessions, client(10000)), PacketPlan::Forward);
    let route = proxy.proxy_packet_bidirectional(&mut sessions, client(10000), 7777).unwrap();
    assert_eq!((route.target.ip.as_str(), route.target.port), ("10.0.0.1", 7777));
    assert!(route.socket.created);
    assert_eq!(route.socket.client_port, 10000);
    // the answer of the backend goes back to 1.2.3.4:10000
    assert_eq!(sessions.fan_out(client(0).ip, 7777), vec![client(10000)]);

    // a second token points to another backend; a reset binds the client to it
    let other = tokens.generate_token(TokenTarget::single_port("10.0.0.2".to_string(), 7777), 1);
    let reset = QueryRequest::SessionReset { token: other.clone() };
    assert_eq!(server.plan_query(&reset), QueryPlan::Reset);
    let outcome = server.process_query(
        reset,
        &lb,
        Ok(&listed),
        None,
        &mut tokens,
        &mut sessions,
        client(50001),
        2,
    );
    match outcome.response {
        QueryResponse::Success { token } => assert_eq!(token, other),
        other => panic!("expected the token, got {:?}", other),
    }
    assert_eq!(outcome.closed, vec![route.socket.socket]);
    let route = proxy.proxy_packet_bidirectional(&mut sessions, client(10000), 7777).unwrap();
    assert_eq!((route.target.ip.as_str(), route.target.port), ("10.0.0.2", 7777));
    assert!(route.socket.created);
    assert_eq!(sessions.count(), 1);
}

#[test]
fn reset_with_unknown_or_expired_token() {
    let server = QueryServer::new(9000, single_port_config());
    let mut tokens = TokenCache::new(30);
    let mut sessions = SessionManager::new(300);
    let outcome =
        server.process_session_reset("nope".to_string(), &tokens, &mut sessions, client(1), 0);
    assert_eq!(error_of(&outcome.response), "Invalid or expired token");
    assert_eq!(sessions.count(), 0);
    let token = tokens.generate_token(TokenTarget::single_port("10.0.0.2".to_string(), 7777), 0);
    let outcome =
        server.process_session_reset(token.clone(), &tokens, &mut sessions, client(1), 30);
    assert_eq!(error_of(&outcome.response), "Invalid or expired token");
    assert_eq!(sessions.count(), 0);
    let outcome = server.process_session_reset(token, &tokens, &mut sessions, client(1), 29);
    assert!(matches!(outcome.response, QueryResponse::Success { .. }));
    assert_eq!(sessions.get(&client(1).ip).unwrap().target_ip, "10.0.0.2");
}

#[test]
fn multi_port_query() {
    let server = QueryServer::new(9000, multi_port_config());
    let proxy = DataProxy::new(multi_port_config());
    let lb = LoadBalancer::new(LoadBalancingStrategy::LeastSessions);
    let mut tokens = TokenCache::new(30);
    let mut sessions = SessionManager::new(300);
    let listed =
        vec![pod("pod-1", "10.0.0.1", vec![("game-udp", 7777), ("query-udp", 27015)], "Ready")];
    let outcome = server.process_resource_query(
        &lb,
        "gameserver",
        &None,
        Ok(&listed),
        None,
        &mut tokens,
        &mut sessions,
        client(50000),
        0,
    );
    match outcome.response {
        QueryResponse::SuccessMultiPort { token, address, ports } => {
            assert_eq!(token.len(), 36);
            assert_eq!(address, "10.0.0.1");
            assert_eq!(ports, vec![("game".to_string(), 7777), ("query".to_string(), 27015)]);
            let target = tokens.lookup(&token, 0).unwrap();
            assert_eq!(target.port_mappings.get(7777, Protocol::Udp), Some(7777));
            assert_eq!(target.port_mappings.get(27015, Protocol::Udp), Some(27015));
            assert_eq!(target.port_mappings.len(), 2);
        },
        other => panic!("expected a multi-port answer, got {:?}", other),
    }
    let game = proxy.proxy_packet_bidirectional(&mut sessions, client(1001), 7777).unwrap();
    assert_eq!((game.target.ip.as_str(), game.target.port), ("10.0.0.1", 7777));
    let query = proxy.proxy_packet_bidirectional(&mut sessions, client(1002), 27015).unwrap();
    assert_eq!((query.target.ip.as_str(), query.target.port), ("10.0.0.1", 27015));
    assert_ne!(game.socket.socket, query.socket.socket);
    assert_eq!(sessions.fan_out(client(0).ip, 7777), vec![client(1001)]);
    assert_eq!(sessions.fan_out(client(0).ip, 27015), vec![client(1002)]);
    assert_eq!(
        proxy.proxy_packet_bidirectional(&mut sessions, client(1001), 9).err(),
        Some(ProxyError::Target(AddrError::NoPortMapping {
            proxy_port: 9,
            protocol: Protocol::Udp
        }))
    );
}

#[test]
fn multi_port_names_that_no_data_port_has_are_left_out() {
    let mut cfg = multi_port_config();
    cfg.data_ports = Some(vec![
        DataPortConfig { port: 7777, protocol: Protocol::Udp, name: "game".to_string() },
        DataPortConfig { port: 7778, protocol: Protocol::Tcp, name: "game".to_string() },
        DataPortConfig { port: 9999, protocol: Protocol::Udp, name: "voice".to_string() },
    ]);
    let r = pod("pod-1", "10.0.0.1", vec![("game-udp", 7000), ("query-udp", 27015)], "Ready");
    let endpoint = endpoint_target(&r, &multi_port_mapping(), cfg.data_ports.as_ref().unwrap()).unwrap();
    assert_eq!(endpoint.address, "10.0.0.1");
    assert_eq!(endpoint.port_mappings.len(), 2);
    assert_eq!(endpoint.port_mappings.get(7777, Protocol::Udp), Some(7000));
    assert_eq!(endpoint.port_mappings.get(7778, Protocol::Tcp), Some(7000));
    assert_eq!(endpoint.port_mappings.get(9999, Protocol::Udp), None);
    let uniform = uniform_port_map(cfg.data_ports.as_ref().unwrap(), 5);
    assert_eq!(uniform.len(), 3);
    assert_eq!(uniform.get(9999, Protocol::Udp), Some(5));
}

#[test]
fn query_failures_are_answered_with_their_message() {
    let server = QueryServer::new(9000, single_port_config());
    let lb = LoadBalancer::new(LoadBalancingStrategy::LeastSessions);
    let mut tokens = TokenCache::new(30);
    let mut sessions = SessionManager::new(300);
    let listed = vec![pod("pod-1", "10.0.0.1", vec![("game-udp", 7777)], "Ready")];
    let mut run = |resource_type: &str,
                   status: Option<StatusQueryDto>,
                   listed: Result<&Vec<Resource>, &str>| {
        let outcome = server.process_resource_query(
            &lb,
            resource_type,
            &status,
            listed,
            None,
            &mut tokens,
            &mut sessions,
            client(1),
            0,
        );
        assert!(outcome.closed.is_empty());
        error_of(&outcome.response)
    };
    assert_eq!(run("fleet", None, Ok(&listed)), "Unknown resource type");
    assert_eq!(run("", None, Ok(&listed)), "Unknown resource type");
    assert_eq!(server.plan_query(&query("fleet")), QueryPlan::UnknownResourceType);
    assert_eq!(run("gameserver", None, Err("timed out")), "Failed to query resources: timed out");
    assert_eq!(run("gameserver", None, Ok(&Vec::new())), "No matching resources found");
    let status = StatusQueryDto {
        json_path: "status.state".to_string(),
        expected_values: vec!["Allocated".to_string()],
    };
    assert_eq!(run("gameserver", Some(status), Ok(&listed)), "No matching resources found");
    let no_address = vec![Resource {
        name: None,
        labels: None,
        annotations: None,
        document: obj(vec![]),
    }];
    assert_eq!(
        run("gameserver", None, Ok(&no_address)),
        "No valid backends found after address extraction"
    );
    let no_port = vec![pod("pod-1", "10.0.0.1", vec![("other", 1)], "Ready")];
    assert_eq!(
        run("gameserver", None, Ok(&no_port)),
        "Failed to extract port: Port with the given name not found in resource"
    );
    assert_eq!(sessions.count(), 0);
}

#[test]
fn query_uses_the_backend_selector() {
    let server = QueryServer::new(9000, single_port_config());
    let mut lb = LoadBalancer::new(LoadBalancingStrategy::LeastSessions);
    lb.increment_session("10.0.0.1");
    let mut tokens = TokenCache::new(30);
    let mut sessions = SessionManager::new(300);
    let listed = vec![
        pod("pod-1", "10.0.0.1", vec![("game-udp", 7777)], "Ready"),
        pod("pod-2", "10.0.0.2", vec![("game-udp", 7778)], "Ready"),
    ];
    let target = server.resolve_query(&lb, "gameserver", &None, Ok(&listed), None).unwrap();
    assert_eq!(target.address, "10.0.0.2");
    assert_eq!(target.port_mappings.get(7778, Protocol::Udp), Some(7778));
    assert!(target.ports.is_none());
    let capacity = LoadBalancer::new(LoadBalancingStrategy::LabelArithmetic {
        current_label: "currentUsers".to_string(),
        max_label: "maxUsers".to_string(),
        overlap: 0,
    });
    let outcome = server.process_resource_query(
        &capacity,
        "gameserver",
        &None,
        Ok(&listed),
        None,
        &mut tokens,
        &mut sessions,
        client(1),
        0,
    );
    assert_eq!(error_of(&outcome.response), SelectError::NoCapacity.message());
}

#[test]
fn service_based_query() {
    let mut mapping = single_port_mapping();
    mapping.address_path = None;
    mapping.port_name = None;
    let cfg = config(vec![(7777, Protocol::Udp, "default")], mapping.clone());
    let server = QueryServer::new(9000, cfg);
    assert_eq!(server.plan_query(&query("gameserver")), QueryPlan::List { services: true });
    let lb = LoadBalancer::new(LoadBalancingStrategy::LeastSessions);
    let listed = vec![pod("pod-1", "10.0.0.1", vec![], "Ready"), pod("pod-2", "10.0.0.2", vec![], "Ready")];
    let services = vec![ServiceRecord {
        name: Some("svc".to_string()),
        labels: Some(vec![("game".to_string(), "pod-1".to_string())]),
        spec: Some(ServiceSpec {
            cluster_ip: Some("10.96.0.7".to_string()),
            ports: Some(vec![ServicePort { name: Some("udp".to_string()), port: 7000 }]),
        }),
    }];
    let err = |server: &QueryServer, services: Option<Result<&Vec<ServiceRecord>, &str>>| {
        server.resolve_query(&lb, "gameserver", &None, Ok(&listed), services).err().unwrap()
    };
    assert_eq!(
        err(&server, Some(Ok(&services))),
        "service_selector_label is required for service-based approach"
    );
    mapping.service_selector_label = Some("game".to_string());
    let server = QueryServer::new(9000, config(vec![(7777, Protocol::Udp, "default")], mapping.clone()));
    assert_eq!(
        err(&server, Some(Ok(&services))),
        "service_target_port_name is required for service-based approach"
    );
    mapping.service_target_port_name = Some("udp".to_string());
    let server = QueryServer::new(9000, config(vec![(7777, Protocol::Udp, "default")], mapping.clone()));
    assert_eq!(err(&server, Some(Err("forbidden"))), "Failed to find service: forbidden");
    assert_eq!(err(&server, None), "Failed to find service: services were not listed");
    assert_eq!(err(&server, Some(Ok(&Vec::new()))), "No service found for resource: pod-1");
    let target =
        server.resolve_query(&lb, "gameserver", &None, Ok(&listed), Some(Ok(&services))).unwrap();
    assert_eq!(target.address, "10.96.0.7");
    assert_eq!(target.port_mappings.get(7000, Protocol::Udp), Some(7000));
}

#[test]
fn tokenless_default_session_uses_the_cache() {
    let mut cfg = single_port_config();
    cfg.default_endpoint.status_query = Some(StatusQueryConfig {
        json_path: "status.state".to_string(),
        expected_values: vec!["Ready".to_string()],
    });
    let mut proxy = DataProxy::new(cfg);
    let mut sessions = SessionManager::new(300);
    let mut cache = DefaultEndpointCacheHandle::new();
    let first = ClientAddr { ip: IpAddress::v4(5, 6, 7, 8), port: 9000 };
    let listed = vec![
        pod("busy", "10.0.0.8", vec![("game-udp", 7777)], "Allocated"),
        pod("ready", "10.0.0.9", vec![("game-udp", 7777)], "Ready"),
    ];

    assert_eq!(proxy.handle_udp_data_packet(&sessions, first), PacketPlan::EstablishDefault);
    assert_eq!(
        proxy.default_route(&cache, 7777, Protocol::Udp),
        DefaultRoute::Query { store: true }
    );
    // without a resolved endpoint nothing is established
    assert_eq!(
        proxy
            .establish_default_session(&mut sessions, &mut cache, first, 7777, Protocol::Udp, None, 0)
            .err(),
        Some(ProxyError::EndpointRequired)
    );
    assert_eq!(sessions.count(), 0);
    let resolved = proxy.query_default_endpoint(&listed).unwrap();
    assert_eq!(resolved.address, "10.0.0.9");
    let closed = proxy
        .establish_default_session(
            &mut sessions,
            &mut cache,
            first,
            7777,
            Protocol::Udp,
            Some(resolved),
            0,
        )
        .unwrap();
    assert!(closed.is_empty());
    assert_eq!(cache.get_cache().as_ref().unwrap().address, "10.0.0.9");
    assert_eq!(proxy.load_balancer.get_session_count("10.0.0.9"), 1);
    let route = proxy.proxy_packet_bidirectional(&mut sessions, first, 7777).unwrap();
    assert_eq!((route.target.ip.as_str(), route.target.port), ("10.0.0.9", 7777));

    // a second datagram of the same client is forwarded on its session
    assert_eq!(proxy.handle_udp_data_packet(&sessions, first), PacketPlan::Forward);
    // another client without session gets the cached endpoint, without a query
    let second = ClientAddr { ip: IpAddress::v4(5, 6, 7, 9), port: 9000 };
    assert_eq!(proxy.default_route(&cache, 7777, Protocol::Udp), DefaultRoute::Cached);
    proxy
        .establish_default_session(&mut sessions, &mut cache, second, 7777, Protocol::Udp, None, 1)
        .unwrap();
    assert_eq!(sessions.get(&second.ip).unwrap().target_ip, "10.0.0.9");
    assert_eq!(proxy.load_balancer.get_session_count("10.0.0.9"), 2);
    assert_eq!(sessions.count(), 2);

    // a data port that the cached endpoint does not serve
    assert_eq!(
        proxy.default_route(&cache, 7777, Protocol::Tcp),
        DefaultRoute::Query { store: false }
    );
    let third = ClientAddr { ip: IpAddress::v4(5, 6, 7, 10), port: 9000 };
    let resolved = proxy.query_default_endpoint(&listed).unwrap();
    assert_eq!(
        proxy
            .establish_default_session(
                &mut sessions,
                &mut cache,
                third,
                7777,
                Protocol::Tcp,
                Some(resolved),
                2,
            )
            .err(),
        Some(ProxyError::PortNotSupported { proxy_port: 7777, protocol: Protocol::Tcp })
    );
    assert_eq!(sessions.count(), 2);
    assert_eq!(
        proxy.handle_tcp_connection(&sessions, third, 7777).err(),
        Some(ProxyError::SessionNotFound)
    );
    assert_eq!(
        proxy.handle_tcp_connection(&sessions, first, 7777).err(),
        Some(ProxyError::Target(AddrError::NoPortMapping {
            proxy_port: 7777,
            protocol: Protocol::Tcp
        }))
    );
    assert_eq!(
        proxy.proxy_packet_bidirectional(&mut sessions, third, 7777).err(),
        Some(ProxyError::SessionNotFound)
    );
}

#[test]
fn tcp_connections_follow_the_session() {
    let proxy = DataProxy::new(single_port_config());
    let mut sessions = SessionManager::new(300);
    let mut map = udp_director::port_map::PortMap::new();
    map.insert(8080, Protocol::Tcp, 80);
    sessions.upsert_multi_port(client(1), "10.0.0.1".to_string(), map, 0);
    let target = proxy.handle_tcp_connection(&sessions, client(2), 8080).unwrap();
    assert_eq!((target.ip.as_str(), target.port), ("10.0.0.1", 80));
}

#[test]
fn default_endpoint_failures() {
    let listed = vec![pod("pod-1", "10.0.0.1", vec![("game-udp", 7777)], "Ready")];
    let proxy = DataProxy::new(single_port_config());
    assert_eq!(
        proxy.query_default_endpoint(&Vec::new()).err(),
        Some(ProxyError::NoMatchingResources)
    );
    let mut cfg = single_port_config();
    cfg.default_endpoint.resource_type = "fleet".to_string();
    assert_eq!(
        DataProxy::new(cfg).query_default_endpoint(&listed).err(),
        Some(ProxyError::UnknownResourceType)
    );
    let mut mapping = single_port_mapping();
    mapping.address_path = None;
    let proxy = DataProxy::new(config(vec![(7777, Protocol::Udp, "default")], mapping));
    assert_eq!(
        proxy.query_default_endpoint(&listed).err(),
        Some(ProxyError::AddressPathRequired)
    );
    let mut mapping = single_port_mapping();
    mapping.port_name = Some("missing".to_string());
    let proxy = DataProxy::new(config(vec![(7777, Protocol::Udp, "default")], mapping));
    assert_eq!(
        proxy.query_default_endpoint(&listed).err(),
        Some(ProxyError::Extract(ExtractError::PortNameNotFound))
    );
    let mut cfg = single_port_config();
    cfg.load_balancing = LoadBalancingConfig {
        strategy: LoadBalancingStrategy::LabelArithmetic {
            current_label: "c".to_string(),
            max_label: "m".to_string(),
            overlap: 0,
        },
    };
    assert_eq!(
        DataProxy::new(cfg).query_default_endpoint(&listed).err(),
        Some(ProxyError::Select(SelectError::NoCapacity))
    );
    let mut cfg = single_port_config();
    cfg.default_endpoint.annotation_selector = Some(vec![("map".to_string(), "dust".to_string())]);
    assert_eq!(
        DataProxy::new(cfg).query_default_endpoint(&listed).err(),
        Some(ProxyError::NoMatchingResources)
    );
}

#[test]
fn test_magic_bytes_detection() {
    let magic_bytes = vec![0xFF, 0xFF, 0xFF, 0xFF, 0x52, 0x45, 0x53, 0x45, 0x54];
    let mut packet = magic_bytes.clone();
    packet.extend_from_slice(b"test-token-123");

    assert!(packet.starts_with(&magic_bytes));
    let token_bytes = control_token(&magic_bytes, &packet);
    assert!(token_bytes.is_some());

    let token = String::from_utf8_lossy(token_bytes.as_ref().unwrap()).to_string();
    assert_eq!(token, "test-token-123");
}

#[test]
fn control_token_edge_cases() {
    let magic = vec![1u8, 2, 3];
    assert_eq!(control_token(&magic, &vec![1, 2, 3]), Some(Vec::new()));
    assert_eq!(control_token(&magic, &vec![1, 2, 3, 4]), Some(vec![4]));
    assert_eq!(control_token(&magic, &vec![1, 2]), None);
    assert_eq!(control_token(&magic, &vec![1, 2, 4, 3]), None);
    assert_eq!(control_token(&magic, &Vec::new()), None);
    // empty magic bytes switch control packets off
    assert_eq!(control_token(&Vec::new(), &vec![1, 2, 3]), None);
    assert_eq!(control_token(&Vec::new(), &Vec::new()), None);
}

#[test]
fn control_packets_reset_and_may_be_repeated() {
    let proxy = DataProxy::new(single_port_config());
    let magic = proxy.config.get_magic_bytes().unwrap();
    let mut tokens = TokenCache::new(30);
    let mut sessions = SessionManager::new(300);
    sessions.upsert(client(1), &udp_director::token_cache::TargetAddr { ip: "10.0.0.1".to_string(), port: 7777 }, 0);
    let socket = sessions.get_or_create_udp_socket(client(1), 7777).unwrap().socket;
    let token = tokens.generate_token(TokenTarget::single_port("10.0.0.2".to_string(), 7777), 0);
    let mut packet = magic.clone();
    packet.extend_from_slice(token.as_bytes());

    let data = b"HELLO".to_vec();
    assert!(matches!(
        proxy.handle_control_packet(&tokens, &mut sessions, &magic, &data, client(1), 1),
        ControlOutcome::NotControl
    ));
    assert!(matches!(
        proxy.handle_control_packet(&tokens, &mut sessions, &Vec::new(), &packet, client(1), 1),
        ControlOutcome::NotControl
    ));
    let mut bad = magic.clone();
    bad.extend_from_slice(b"no-such-token");
    assert!(matches!(
        proxy.handle_control_packet(&tokens, &mut sessions, &magic, &bad, client(1), 1),
        ControlOutcome::InvalidToken
    ));
    assert!(matches!(
        proxy.handle_control_packet(&tokens, &mut sessions, &magic, &packet, client(1), 30),
        ControlOutcome::InvalidToken
    ));
    assert_eq!(sessions.get(&client(1).ip).unwrap().target_ip, "10.0.0.1");

    match proxy.handle_control_packet(&tokens, &mut sessions, &magic, &packet, client(1), 1) {
        ControlOutcome::Reset(closed) => assert_eq!(closed, vec![socket]),
        _ => panic!("expected a reset"),
    }
    let once = sessions.get(&client(1).ip).unwrap();
    match proxy.handle_control_packet(&tokens, &mut sessions, &magic, &packet, client(1), 1) {
        ControlOutcome::Reset(closed) => assert!(closed.is_empty()),
        _ => panic!("expected a reset"),
    }
    let twice = sessions.get(&client(1).ip).unwrap();
    assert_eq!(once.target_ip, "10.0.0.2");
    assert_eq!(once.target_ip, twice.target_ip);
    assert_eq!(once.last_activity, twice.last_activity);
    assert_eq!(once.udp_sockets, twice.udp_sockets);
    assert_eq!(once.client_ports, twice.client_ports);
    assert_eq!(once.port_mappings.entries(), twice.port_mappings.entries());
    assert_eq!(sessions.count(), 1);
}

#[test]
fn test_resource_monitor_creation() {
    let cfg = Config {
        query_port: 9000,
        data_port: Some(7777),
        data_ports: None,
        default_endpoint: DefaultEndpoint {
            resource_type: "gameserver".to_string(),
            namespace: "default".to_string(),
            label_selector: None,
            status_query: None,
            annotation_selector: None,
        },
        token_ttl_seconds: 30,
        session_timeout_seconds: 300,
        control_packet_magic_bytes: "FFFFFFFF5245534554".to_string(),
        resource_query_mapping: Vec::new(),
        load_balancing: LoadBalancingConfig::default(),
    };
    let _session_manager = SessionManager::new(300);
    let _cache_handle = DefaultEndpointCacheHandle::new();
    let monitor = ResourceMonitor::new(cfg, 10);
    assert_eq!(monitor.check_interval_seconds, 10);
    assert!(monitor.last_default_endpoint.is_none());
}

#[test]
fn monitor_invalidates_the_cache_on_change() {
    let mut proxy = DataProxy::new(single_port_config());
    let mut monitor = ResourceMonitor::new(single_port_config(), 10);
    let mut cache = DefaultEndpointCacheHandle::new();
    let mut sessions = SessionManager::new(300);
    let listed = vec![pod("pod-9", "10.0.0.9", vec![("game-udp", 7777)], "Ready")];

    assert_eq!(monitor.check_default_endpoint(&Vec::new(), &mut cache), MonitorChange::StillAbsent);
    assert_eq!(monitor.check_default_endpoint(&listed, &mut cache), MonitorChange::Found);
    assert_eq!(monitor.last_default_endpoint.as_deref(), Some("pod-9 (10.0.0.9:7777)"));

    let resolved = proxy.query_default_endpoint(&listed).unwrap();
    proxy
        .establish_default_session(
            &mut sessions,
            &mut cache,
            client(1),
            7777,
            Protocol::Udp,
            Some(resolved),
            0,
        )
        .unwrap();
    assert!(cache.get_cache().is_some());
    assert_eq!(monitor.check_default_endpoint(&listed, &mut cache), MonitorChange::Unchanged);
    assert!(cache.get_cache().is_some());

    // the resource is deleted: the cache is dropped, a new client has to query
    assert_eq!(monitor.check_default_endpoint(&Vec::new(), &mut cache), MonitorChange::Lost);
    assert!(cache.get_cache().is_none());
    assert!(monitor.last_default_endpoint.is_none());
    assert_eq!(
        proxy.default_route(&cache, 7777, Protocol::Udp),
        DefaultRoute::Query { store: true }
    );

    assert_eq!(monitor.check_default_endpoint(&listed, &mut cache), MonitorChange::Found);
    cache.set(proxy.query_default_endpoint(&listed).unwrap());
    let moved = vec![pod("pod-9", "10.0.0.10", vec![("game-udp", 7777)], "Ready")];
    assert_eq!(monitor.check_default_endpoint(&moved, &mut cache), MonitorChange::Changed);
    assert!(cache.get_cache().is_none());
    assert_eq!(monitor.last_default_endpoint.as_deref(), Some("pod-9 (10.0.0.10:7777)"));

    let mut cfg = single_port_config();
    cfg.default_endpoint.resource_type = "fleet".to_string();
    let mut skipping = ResourceMonitor::new(cfg, 10);
    cache.set(proxy.query_default_endpoint(&listed).unwrap());
    assert_eq!(skipping.check_default_endpoint(&listed, &mut cache), MonitorChange::Skipped);
    assert!(cache.get_cache().is_some());
    cache.invalidate();
    assert!(cache.get_cache().is_none());
}

#[test]
fn descriptions() {
    let mapping = single_port_mapping();
    let full = pod("pod-1", "10.0.0.1", vec![("game-udp", 65535)], "Ready");
    assert_eq!(describe(&full, &mapping), "pod-1 (10.0.0.1:65535)");
    let no_port = pod("pod-1", "10.0.0.1", vec![], "Ready");
    assert_eq!(describe(&no_port, &mapping), "pod-1");
    let mut nameless = pod("x", "10.0.0.1", vec![("game-udp", 0)], "Ready");
    nameless.name = None;
    assert_eq!(describe(&nameless, &mapping), "unknown (10.0.0.1:0)");
    let mut pathless = single_port_mapping();
    pathless.address_path = None;
    assert_eq!(describe(&full, &pathless), "pod-1");
    let mut wrong = single_port_mapping();
    wrong.address_path = Some("status.nothing".to_string());
    assert_eq!(describe(&full, &wrong), "pod-1");
}
