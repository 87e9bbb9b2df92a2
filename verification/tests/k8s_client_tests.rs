use udp_director::config::{PortMapping, ResourceMapping};
use udp_director::json::{JsonNumber, JsonValue};
use udp_director::k8s_client::{
    ExtractError, K8sClient, Resource, ServicePort, ServiceRecord, ServiceSpec, StatusQuery,
};

fn text(s: &str) -> JsonValue {
    JsonValue::Text(s.to_string())
}

fn num(n: u64) -> JsonValue {
    JsonValue::Number(JsonNumber { as_u64: Some(n), text: n.to_string() })
}

fn arr(items: Vec<JsonValue>) -> JsonValue {
    JsonValue::Array(items)
}

fn obj(members: Vec<(&str, JsonValue)>) -> JsonValue {
    JsonValue::Object(members.into_iter().map(|(k, v)| (k.to_string(), v)).collect())
}

fn resource(document: JsonValue) -> Resource {
    Resource { name: None, labels: None, annotations: None, document }
}

fn pod_document() -> JsonValue {
    obj(vec![
        ("apiVersion", text("v1")),
        ("kind", text("Pod")),
        ("metadata", obj(vec![("name", text("test-pod"))])),
        (
            "spec",
            obj(vec![(
                "containers",
                arr(vec![obj(vec![
                    ("name", text("starx")),
                    (
                        "ports",
                        arr(vec![
                            obj(vec![
                                ("name", text("game-udp")),
                                ("containerPort", num(7777)),
                                ("protocol", text("UDP")),
                            ]),
                            obj(vec![
                                ("name", text("game-tcp")),
                                ("containerPort", num(7777)),
                                ("protocol", text("TCP")),
                            ]),
                        ]),
                    ),
                ])]),
            )]),
        ),
        ("status", obj(vec![("podIP", text("10.244.1.44")), ("phase", text("Running"))])),
    ])
}

fn as_text(v: Option<&JsonValue>) -> Option<String> {
    match v {
        Some(JsonValue::Text(s)) => Some(s.clone()),
        _ => None,
    }
}

fn as_u64(v: Option<&JsonValue>) -> Option<u64> {
    match v {
        Some(JsonValue::Number(n)) => n.as_u64,
        _ => None,
    }
}

#[test]
fn test_extract_json_path() {
    let json = obj(vec![
        ("status", obj(vec![("state", text("Allocated"))])),
        ("metadata", obj(vec![("name", text("test-server"))])),
    ]);

    let value = json.extract_json_path("status.state");
    assert_eq!(as_text(value), Some("Allocated".to_string()));

    let value = json.extract_json_path("metadata.name");
    assert_eq!(as_text(value), Some("test-server".to_string()));

    let value = json.extract_json_path("nonexistent.path");
    assert!(value.is_none());
}

#[test]
fn test_extract_json_path_with_arrays() {
    let json = obj(vec![
        (
            "spec",
            obj(vec![(
                "containers",
                arr(vec![obj(vec![
                    ("name", text("starx")),
                    (
                        "ports",
                        arr(vec![
                            obj(vec![
                                ("name", text("game-udp")),
                                ("containerPort", num(7777)),
                                ("protocol", text("UDP")),
                            ]),
                            obj(vec![
                                ("name", text("game-tcp")),
                                ("containerPort", num(7777)),
                                ("protocol", text("TCP")),
                            ]),
                        ]),
                    ),
                ])]),
            )]),
        ),
        ("status", obj(vec![("podIP", text("10.244.1.44"))])),
    ]);

    let value = json.extract_json_path("spec.containers[0].name");
    assert_eq!(as_text(value), Some("starx".to_string()));

    let value = json.extract_json_path("spec.containers[0].ports[0].containerPort");
    assert_eq!(as_u64(value), Some(7777));

    let value = json.extract_json_path("spec.containers[0].ports[1].protocol");
    assert_eq!(as_text(value), Some("TCP".to_string()));

    let value = json.extract_json_path("status.podIP");
    assert_eq!(as_text(value), Some("10.244.1.44".to_string()));

    let value = json.extract_json_path("spec.containers[5].name");
    assert!(value.is_none());
}

#[test]
fn test_extract_port_from_pod_spec() {
    let client = K8sClient::new();
    let pod = resource(pod_document());

    let port = client.extract_port(&pod, None, Some("game-udp")).unwrap();
    assert_eq!(port, 7777);

    let port = client.extract_port(&pod, None, Some("game-tcp")).unwrap();
    assert_eq!(port, 7777);

    let port = client
        .extract_port(&pod, Some("spec.containers[0].ports[0].containerPort"), None)
        .unwrap();
    assert_eq!(port, 7777);

    let port = client
        .extract_port(&pod, Some("spec.containers[0].ports[1].containerPort"), None)
        .unwrap();
    assert_eq!(port, 7777);

    let result = client.extract_port(&pod, None, Some("non-existent"));
    assert!(result.is_err());
}

#[test]
fn test_annotation_selector_matching() {
    let client = K8sClient::new();

    let resource_with = Resource {
        name: Some("test-server".to_string()),
        labels: None,
        annotations: Some(vec![
            ("currentPlayers".to_string(), "32".to_string()),
            ("maxPlayers".to_string(), "64".to_string()),
            ("map".to_string(), "de_dust2".to_string()),
        ]),
        document: obj(vec![
            ("apiVersion", text("agones.dev/v1")),
            ("kind", text("GameServer")),
            ("status", obj(vec![("state", text("Ready"))])),
        ]),
    };

    let mut selector = vec![("currentPlayers".to_string(), "32".to_string())];
    assert!(client.matches_annotation_selector(&resource_with, &selector));

    selector.push(("map".to_string(), "de_dust2".to_string()));
    assert!(client.matches_annotation_selector(&resource_with, &selector));

    selector[0] = ("currentPlayers".to_string(), "64".to_string());
    assert!(!client.matches_annotation_selector(&resource_with, &selector));

    let selector2 = vec![("nonExistent".to_string(), "value".to_string())];
    assert!(!client.matches_annotation_selector(&resource_with, &selector2));

    let resource_no_annot = Resource {
        name: Some("test-pod".to_string()),
        labels: None,
        annotations: None,
        document: obj(vec![("apiVersion", text("v1")), ("kind", text("Pod"))]),
    };
    assert!(!client.matches_annotation_selector(&resource_no_annot, &selector));
}

#[test]
fn empty_selector_matches_only_annotated_resources() {
    let client = K8sClient::new();
    let mut r = resource(obj(vec![]));
    assert!(!client.matches_annotation_selector(&r, &Vec::new()));
    r.annotations = Some(Vec::new());
    assert!(client.matches_annotation_selector(&r, &Vec::new()));
}

#[test]
fn path_edge_cases() {
    let json = obj(vec![
        ("a", arr(vec![text("x"), text("y")])),
        ("", text("empty")),
        ("b", obj(vec![("c", JsonValue::Null)])),
    ]);
    // the index stands between the bracket and the last character
    assert_eq!(as_text(json.extract_json_path("a[1]")), Some("y".to_string()));
    assert_eq!(as_text(json.extract_json_path("a[+1]")), Some("y".to_string()));
    assert!(json.extract_json_path("a[2]").is_none());
    assert!(json.extract_json_path("a[-1]").is_none());
    assert!(json.extract_json_path("a[x]").is_none());
    assert!(json.extract_json_path("a[]").is_none());
    assert!(json.extract_json_path("a[").is_none());
    assert!(json.extract_json_path("a[99999999999999999999999999]").is_none());
    // an empty path names the member with the empty name
    assert_eq!(as_text(json.extract_json_path("")), Some("empty".to_string()));
    assert!(matches!(json.extract_json_path("b.c"), Some(JsonValue::Null)));
    assert!(json.extract_json_path("b.c.d").is_none());
    assert!(json.extract_json_path("b.").is_none());
    // an index on something that is no array
    assert!(json.extract_json_path("b[0]").is_none());
}

#[test]
fn object_lookup_takes_the_first_member() {
    let json = obj(vec![("k", text("first")), ("k", text("second"))]);
    assert_eq!(as_text(json.get("k")), Some("first".to_string()));
    assert!(json.get("missing").is_none());
    assert!(text("x").get("k").is_none());
    assert!(json.get_index(0).is_none());
    assert_eq!(as_text(arr(vec![text("z")]).get_index(0)), Some("z".to_string()));
    assert_eq!(text("q").as_text(), Some(&"q".to_string()));
    assert!(num(1).as_text().is_none());
}

#[test]
fn extract_address_plain_string() {
    let client = K8sClient::new();
    let pod = resource(pod_document());
    assert_eq!(client.extract_address(&pod, "status.podIP", None), Ok("10.244.1.44".to_string()));
    assert_eq!(
        client.extract_address(&pod, "status.missing", None),
        Err(ExtractError::AddressPathNotFound)
    );
    assert_eq!(
        client.extract_address(&pod, "spec.containers", None),
        Err(ExtractError::AddressNotString)
    );
}

#[test]
fn extract_address_by_type() {
    let client = K8sClient::new();
    let node = resource(obj(vec![(
        "status",
        obj(vec![
            (
                "addresses",
                arr(vec![
                    obj(vec![("type", text("Hostname")), ("address", text("node-1"))]),
                    obj(vec![("type", text("InternalIP")), ("address", num(5))]),
                    obj(vec![("type", text("InternalIP")), ("address", text("10.1.2.3"))]),
                    obj(vec![("type", text("InternalIP")), ("address", text("10.9.9.9"))]),
                ]),
            ),
            ("podIP", text("10.244.1.44")),
        ]),
    )]));
    assert_eq!(
        client.extract_address(&node, "status.addresses", Some("InternalIP")),
        Ok("10.1.2.3".to_string())
    );
    assert_eq!(
        client.extract_address(&node, "status.addresses", Some("ExternalIP")),
        Err(ExtractError::NoAddressOfType)
    );
    assert_eq!(
        client.extract_address(&node, "status.podIP", Some("InternalIP")),
        Err(ExtractError::AddressNotArray)
    );
    assert_eq!(
        client.extract_address(&node, "status.nothing", Some("InternalIP")),
        Err(ExtractError::AddressPathNotFound)
    );
}

#[test]
fn extract_port_prefers_status_ports() {
    let client = K8sClient::new();
    let gs = resource(obj(vec![
        (
            "status",
            obj(vec![(
                "ports",
                arr(vec![
                    obj(vec![("name", text("default")), ("port", text("not a number"))]),
                    obj(vec![("name", text("default")), ("port", num(7654))]),
                ]),
            )]),
        ),
        (
            "spec",
            obj(vec![(
                "containers",
                arr(vec![obj(vec![(
                    "ports",
                    arr(vec![obj(vec![("name", text("default")), ("containerPort", num(1))])]),
                )])]),
            )]),
        ),
    ]));
    assert_eq!(client.extract_port(&gs, None, Some("default")), Ok(7654));
    // the name wins over the path
    assert_eq!(client.extract_port(&gs, Some("no.such.path"), Some("default")), Ok(7654));
}

#[test]
fn extract_port_errors() {
    let client = K8sClient::new();
    let r = resource(obj(vec![
        ("big", num(65536)),
        ("max", num(65535)),
        ("zero", num(0)),
        ("neg", JsonValue::Number(JsonNumber { as_u64: None, text: "-1".to_string() })),
        ("s", text("80")),
        (
            "status",
            obj(vec![("ports", arr(vec![obj(vec![("name", text("p")), ("port", num(70000))])]))]),
        ),
    ]));
    assert_eq!(client.extract_port(&r, Some("big"), None), Err(ExtractError::PortOutOfRange));
    assert_eq!(client.extract_port(&r, Some("max"), None), Ok(65535));
    assert_eq!(client.extract_port(&r, Some("zero"), None), Ok(0));
    assert_eq!(client.extract_port(&r, Some("neg"), None), Err(ExtractError::PortOutOfRange));
    assert_eq!(client.extract_port(&r, Some("s"), None), Err(ExtractError::PortNotNumber));
    assert_eq!(client.extract_port(&r, Some("none"), None), Err(ExtractError::PortPathNotFound));
    assert_eq!(client.extract_port(&r, None, None), Err(ExtractError::NoPortSource));
    assert_eq!(client.extract_port(&r, None, Some("p")), Err(ExtractError::PortOutOfRange));
    assert_eq!(client.extract_port(&r, None, Some("q")), Err(ExtractError::PortNameNotFound));
}

#[test]
fn extract_ports_in_mapping_order() {
    let client = K8sClient::new();
    let pod = resource(pod_document());
    let mappings = vec![
        PortMapping {
            name: "game".to_string(),
            port_name: Some("game-udp".to_string()),
            port_path: None,
        },
        PortMapping {
            name: "path".to_string(),
            port_name: None,
            port_path: Some("spec.containers[0].ports[1].containerPort".to_string()),
        },
    ];
    assert_eq!(
        client.extract_ports(&pod, &mappings),
        Ok(vec![("game".to_string(), 7777), ("path".to_string(), 7777)])
    );
    let failing = vec![
        PortMapping { name: "a".to_string(), port_name: None, port_path: None },
        PortMapping { name: "b".to_string(), port_name: Some("nope".to_string()), port_path: None },
    ];
    assert_eq!(client.extract_ports(&pod, &failing), Err(ExtractError::NoPortSource));
    assert_eq!(client.extract_ports(&pod, &Vec::new()), Ok(Vec::new()));
}

#[test]
fn status_query_matches_strings_numbers_and_booleans() {
    let client = K8sClient::new();
    let r = resource(obj(vec![(
        "status",
        obj(vec![
            ("state", text("Ready")),
            ("players", num(12)),
            ("open", JsonValue::Bool(true)),
            ("closed", JsonValue::Bool(false)),
            ("nothing", JsonValue::Null),
        ]),
    )]));
    let q = |path: &str, values: Vec<&str>| StatusQuery {
        json_path: path.to_string(),
        expected_values: values.into_iter().map(|v| v.to_string()).collect(),
    };
    assert!(client.matches_status_query(&r, &q("status.state", vec!["Allocated", "Ready"])));
    assert!(!client.matches_status_query(&r, &q("status.state", vec!["Allocated"])));
    assert!(!client.matches_status_query(&r, &q("status.state", vec![])));
    assert!(client.matches_status_query(&r, &q("status.players", vec!["12"])));
    assert!(!client.matches_status_query(&r, &q("status.players", vec!["13"])));
    assert!(client.matches_status_query(&r, &q("status.open", vec!["true"])));
    assert!(client.matches_status_query(&r, &q("status.closed", vec!["false"])));
    assert!(!client.matches_status_query(&r, &q("status.closed", vec!["true"])));
    assert!(!client.matches_status_query(&r, &q("status.nothing", vec!["null"])));
    assert!(!client.matches_status_query(&r, &q("status.missing", vec!["Ready"])));
}

#[test]
fn query_resources_keeps_order_and_filters() {
    let client = K8sClient::new();
    let make = |name: &str, state: &str, map: Option<&str>| Resource {
        name: Some(name.to_string()),
        labels: None,
        annotations: map.map(|m| vec![("map".to_string(), m.to_string())]),
        document: obj(vec![("status", obj(vec![("state", text(state))]))]),
    };
    let listed = vec![
        make("a", "Ready", Some("dust")),
        make("b", "Busy", Some("dust")),
        make("c", "Ready", None),
        make("d", "Ready", Some("dust")),
        make("e", "Ready", Some("nuke")),
    ];
    let expected = vec!["Ready".to_string()];
    let selector = vec![("map".to_string(), "dust".to_string())];
    let names = |kept: Vec<&Resource>| -> Vec<String> {
        kept.into_iter().map(|r| r.name.clone().unwrap()).collect()
    };
    assert_eq!(names(client.query_resources(&listed, None, None)), vec!["a", "b", "c", "d", "e"]);
    assert_eq!(
        names(client.query_resources(&listed, Some(("status.state", &expected)), None)),
        vec!["a", "c", "d", "e"]
    );
    assert_eq!(
        names(client.query_resources(&listed, None, Some(&selector))),
        vec!["a", "b", "d"]
    );
    assert_eq!(
        names(client.query_resources(&listed, Some(("status.state", &expected)), Some(&selector))),
        vec!["a", "d"]
    );
}

#[test]
fn find_service_takes_the_first_match() {
    let client = K8sClient::new();
    let service = |label: Option<&str>, ip: Option<&str>, ports: Option<Vec<(Option<&str>, i32)>>| {
        ServiceRecord {
            name: Some("svc".to_string()),
            labels: label.map(|l| vec![("app".to_string(), l.to_string())]),
            spec: Some(ServiceSpec {
                cluster_ip: ip.map(|s| s.to_string()),
                ports: ports.map(|ps| {
                    ps.into_iter()
                        .map(|(n, p)| ServicePort { name: n.map(|s| s.to_string()), port: p })
                        .collect()
                }),
            }),
        }
    };
    let services = vec![
        service(None, Some("10.0.0.1"), Some(vec![(Some("game"), 1)])),
        service(Some("other"), Some("10.0.0.2"), Some(vec![(Some("game"), 2)])),
        service(Some("pod-1"), Some("10.0.0.3"), Some(vec![(Some("web"), 3)])),
        service(Some("pod-1"), Some("10.0.0.4"), None),
        ServiceRecord {
            name: None,
            labels: Some(vec![("app".to_string(), "pod-1".to_string())]),
            spec: None,
        },
        service(Some("pod-1"), None, Some(vec![(None, 9), (Some("game"), 7777), (Some("game"), 8)])),
        service(Some("pod-1"), Some("10.0.0.6"), Some(vec![(Some("game"), 6)])),
    ];
    assert_eq!(
        client.find_service_for_resource(&services, "pod-1", "app", "game"),
        Some((String::new(), 7777))
    );
    assert_eq!(
        client.find_service_for_resource(&services, "pod-1", "app", "web"),
        Some(("10.0.0.3".to_string(), 3))
    );
    assert_eq!(client.find_service_for_resource(&services, "pod-2", "app", "game"), None);
    assert_eq!(client.find_service_for_resource(&services, "pod-1", "tier", "game"), None);
    assert_eq!(client.find_service_for_resource(&Vec::new(), "pod-1", "app", "game"), None);
}

#[test]
fn api_version_and_label_selector_text() {
    let client = K8sClient::new();
    let mut mapping = ResourceMapping {
        group: "agones.dev".to_string(),
        version: "v1".to_string(),
        resource: "gameservers".to_string(),
        service_selector_label: None,
        service_target_port_name: None,
        address_path: None,
        address_type: None,
        port_path: None,
        port_name: None,
        ports: None,
    };
    assert_eq!(client.api_version(&mapping), "agones.dev/v1");
    mapping.group = String::new();
    assert_eq!(client.api_version(&mapping), "v1");
    assert_eq!(client.label_selector_text(&Vec::new()), "");
    assert_eq!(
        client.label_selector_text(&vec![("app".to_string(), "game".to_string())]),
        "app=game"
    );
    assert_eq!(
        client.label_selector_text(&vec![
            ("app".to_string(), "game".to_string()),
            ("agones.dev/fleet".to_string(), "m-tutorial".to_string()),
            ("x".to_string(), "".to_string()),
        ]),
        "app=game,agones.dev/fleet=m-tutorial,x="
    );
}

#[test]
fn extract_error_messages() {
    assert_eq!(ExtractError::PortOutOfRange.message(), "Port number out of range");
    assert_eq!(
        ExtractError::NoPortSource.message(),
        "Either port_path or port_name must be provided"
    );
}
