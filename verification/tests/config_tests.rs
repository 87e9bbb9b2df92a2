use udp_director::config::{
    Config, ConfigError, DataPortConfig, DefaultEndpoint, PortMapping, Protocol, ResourceMapping,
    StatusQueryConfig,
};
use udp_director::load_balancer::{LoadBalancingConfig, LoadBalancingStrategy};

fn mapping() -> ResourceMapping {
    ResourceMapping {
        group: "agones.dev".to_string(),
        version: "v1".to_string(),
        resource: "gameservers".to_string(),
        service_selector_label: None,
        service_target_port_name: None,
        address_path: Some("status.address".to_string()),
        address_type: None,
        port_path: None,
        port_name: Some("default".to_string()),
        ports: None,
    }
}

fn base_config() -> Config {
    Config {
        query_port: 9000,
        data_port: Some(7777),
        data_ports: None,
        default_endpoint: DefaultEndpoint {
            resource_type: "gameserver".to_string(),
            namespace: "default".to_string(),
            label_selector: None,
            status_query: None,
            annotation_selector: None,
        },
        token_ttl_seconds: 30,
        session_timeout_seconds: 300,
        control_packet_magic_bytes: "FFFFFFFF5245534554".to_string(),
        resource_query_mapping: vec![("gameserver".to_string(), mapping())],
        load_balancing: LoadBalancingConfig::default(),
    }
}

#[test]
fn test_default_endpoint_config() {
    let label_selector = vec![("agones.dev/fleet".to_string(), "m-tutorial".to_string())];

    let config = Config {
        query_port: 9000,
        data_port: Some(7777),
        data_ports: None,
        default_endpoint: DefaultEndpoint {
            resource_type: "gameserver".to_string(),
            namespace: "default".to_string(),
            label_selector: Some(label_selector),
            status_query: Some(StatusQueryConfig {
                json_path: "status.state".to_string(),
                expected_values: vec!["Ready".to_string()],
            }),
            annotation_selector: None,
        },
        token_ttl_seconds: 30,
        session_timeout_seconds: 300,
        control_packet_magic_bytes: "FFFFFFFF5245534554".to_string(),
        resource_query_mapping: Vec::new(),
        load_balancing: LoadBalancingConfig::default(),
    };

    let endpoint = config.get_default_endpoint();
    assert_eq!(endpoint.resource_type, "gameserver");
    assert_eq!(endpoint.namespace, "default");
}

#[test]
fn test_default_endpoint_without_status_query() {
    let label_selector = vec![("agones.dev/fleet".to_string(), "m-tutorial".to_string())];

    let config = Config {
        query_port: 9000,
        data_port: Some(7777),
        data_ports: None,
        default_endpoint: DefaultEndpoint {
            resource_type: "gameserver".to_string(),
            namespace: "starx".to_string(),
            label_selector: Some(label_selector),
            status_query: None,
            annotation_selector: None,
        },
        token_ttl_seconds: 30,
        session_timeout_seconds: 300,
        control_packet_magic_bytes: "FFFFFFFF5245534554".to_string(),
        resource_query_mapping: Vec::new(),
        load_balancing: LoadBalancingConfig::default(),
    };

    let endpoint = config.get_default_endpoint();
    assert_eq!(endpoint.resource_type, "gameserver");
    assert_eq!(endpoint.namespace, "starx");
    assert!(endpoint.status_query.is_none());
}

#[test]
fn test_magic_bytes_decode() {
    let config = Config {
        query_port: 9000,
        data_port: Some(7777),
        data_ports: None,
        default_endpoint: DefaultEndpoint {
            resource_type: "gameserver".to_string(),
            namespace: "default".to_string(),
            label_selector: None,
            status_query: None,
            annotation_selector: None,
        },
        token_ttl_seconds: 30,
        session_timeout_seconds: 300,
        control_packet_magic_bytes: "FFFFFFFF5245534554".to_string(),
        resource_query_mapping: Vec::new(),
        load_balancing: LoadBalancingConfig::default(),
    };

    let magic_bytes = config.get_magic_bytes().unwrap();
    assert_eq!(
        magic_bytes,
        vec![0xFF, 0xFF, 0xFF, 0xFF, 0x52, 0x45, 0x53, 0x45, 0x54]
    );
}

#[test]
fn magic_bytes_lower_case_and_mixed() {
    let mut config = base_config();
    config.control_packet_magic_bytes = "0a1B".to_string();
    assert_eq!(config.get_magic_bytes().unwrap(), vec![0x0a, 0x1b]);
}

#[test]
fn magic_bytes_empty_is_empty() {
    let mut config = base_config();
    config.control_packet_magic_bytes = String::new();
    assert_eq!(config.get_magic_bytes().unwrap(), Vec::<u8>::new());
    assert_eq!(config.validate(), Ok(()));
}

#[test]
fn magic_bytes_odd_length_is_refused() {
    let mut config = base_config();
    config.control_packet_magic_bytes = "FFF".to_string();
    assert_eq!(config.get_magic_bytes(), Err(ConfigError::InvalidMagicBytes));
    assert_eq!(config.validate(), Err(ConfigError::InvalidMagicBytes));
}

#[test]
fn magic_bytes_bad_digit_is_refused() {
    let mut config = base_config();
    config.control_packet_magic_bytes = "FG".to_string();
    assert_eq!(config.get_magic_bytes(), Err(ConfigError::InvalidMagicBytes));
}

#[test]
fn data_ports_from_legacy_port() {
    let mut config = base_config();
    config.data_port = Some(8888);
    let ports = config.get_data_ports();
    assert_eq!(ports.len(), 1);
    assert_eq!(ports[0].port, 8888);
    assert_eq!(ports[0].protocol, Protocol::Udp);
    assert_eq!(ports[0].name, "default");
}

#[test]
fn data_ports_fallback_is_7777() {
    let mut config = base_config();
    config.data_port = None;
    let ports = config.get_data_ports();
    assert_eq!(ports.len(), 1);
    assert_eq!(ports[0].port, 7777);
    assert_eq!(ports[0].protocol, Protocol::Udp);
    assert_eq!(ports[0].name, "default");
}

#[test]
fn data_ports_list_wins_over_legacy_port() {
    let mut config = base_config();
    config.data_ports = Some(vec![
        DataPortConfig { port: 7777, protocol: Protocol::Udp, name: "game".to_string() },
        DataPortConfig { port: 27015, protocol: Protocol::Tcp, name: "query".to_string() },
    ]);
    let ports = config.get_data_ports();
    assert_eq!(ports.len(), 2);
    assert_eq!(ports[0].port, 7777);
    assert_eq!(ports[0].name, "game");
    assert_eq!(ports[1].port, 27015);
    assert_eq!(ports[1].protocol, Protocol::Tcp);
    assert_eq!(ports[1].name, "query");
}

#[test]
fn validate_accepts_a_sound_configuration() {
    assert_eq!(base_config().validate(), Ok(()));
}

#[test]
fn validate_refuses_zero_query_port() {
    let mut config = base_config();
    config.query_port = 0;
    assert_eq!(config.validate(), Err(ConfigError::QueryPortZero));
}

#[test]
fn validate_refuses_empty_data_ports() {
    let mut config = base_config();
    config.data_ports = Some(Vec::new());
    assert_eq!(config.validate(), Err(ConfigError::NoDataPorts));
}

#[test]
fn validate_refuses_zero_data_port() {
    let mut config = base_config();
    config.data_ports = Some(vec![
        DataPortConfig { port: 7777, protocol: Protocol::Udp, name: "game".to_string() },
        DataPortConfig { port: 0, protocol: Protocol::Udp, name: "".to_string() },
    ]);
    assert_eq!(config.validate(), Err(ConfigError::DataPortZero));
}

#[test]
fn validate_refuses_empty_data_port_name() {
    let mut config = base_config();
    config.data_ports =
        Some(vec![DataPortConfig { port: 7777, protocol: Protocol::Udp, name: "".to_string() }]);
    assert_eq!(config.validate(), Err(ConfigError::DataPortNameEmpty));
}

#[test]
fn validate_refuses_duplicate_data_port_names() {
    let mut config = base_config();
    config.data_ports = Some(vec![
        DataPortConfig { port: 7777, protocol: Protocol::Udp, name: "game".to_string() },
        DataPortConfig { port: 7778, protocol: Protocol::Udp, name: "other".to_string() },
        DataPortConfig { port: 7779, protocol: Protocol::Tcp, name: "game".to_string() },
    ]);
    assert_eq!(config.validate(), Err(ConfigError::DuplicateDataPortName));
}

#[test]
fn validate_refuses_empty_resource_type_and_namespace() {
    let mut config = base_config();
    config.default_endpoint.resource_type = String::new();
    assert_eq!(config.validate(), Err(ConfigError::ResourceTypeEmpty));
    let mut config = base_config();
    config.default_endpoint.namespace = String::new();
    assert_eq!(config.validate(), Err(ConfigError::NamespaceEmpty));
}

#[test]
fn validate_refuses_empty_mapping_table() {
    let mut config = base_config();
    config.resource_query_mapping = Vec::new();
    assert_eq!(config.validate(), Err(ConfigError::NoResourceMapping));
}

#[test]
fn validate_reports_the_first_fault() {
    let mut config = base_config();
    config.query_port = 0;
    config.resource_query_mapping = Vec::new();
    config.control_packet_magic_bytes = "zz".to_string();
    assert_eq!(config.validate(), Err(ConfigError::QueryPortZero));
}

#[test]
fn find_mapping_by_resource_type() {
    let config = base_config();
    assert_eq!(config.find_mapping("gameserver").unwrap().resource, "gameservers");
    assert!(config.find_mapping("pod").is_none());
}

#[test]
fn protocol_names() {
    assert_eq!(Protocol::Udp.name(), "udp");
    assert_eq!(Protocol::Tcp.name(), "tcp");
}

#[test]
fn load_balancing_defaults_to_least_sessions() {
    assert!(matches!(LoadBalancingStrategy::default(), LoadBalancingStrategy::LeastSessions));
    assert!(matches!(
        LoadBalancingConfig::default().strategy,
        LoadBalancingStrategy::LeastSessions
    ));
    let _unused = PortMapping { name: "game".to_string(), port_name: None, port_path: None };
}
