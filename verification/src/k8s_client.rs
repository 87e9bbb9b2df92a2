//! Reading orchestrator resources: where a resource's address and ports
//! stand, and which resources a query keeps.

use vstd::prelude::*;
use vstd::string::StringExecFns;
use crate::config::{PortMapping, ResourceMapping};
use crate::json::{spec_extract, spec_field, JsonNumber, JsonValue};
use crate::text::{
    contains_text, lookup, opt_as_str, opt_str_view, opt_string_view, spec_contains_text,
    spec_lookup,
};

verus! {

/// One resource as the orchestrator lists it.
pub struct Resource {
    /// The resource's name.
    pub name: Option<String>,
    /// The resource's labels. A label is looked up as its first entry.
    pub labels: Option<Vec<(String, String)>>,
    /// The resource's annotations. An annotation is looked up as its first entry.
    pub annotations: Option<Vec<(String, String)>>,
    /// The whole resource as a JSON document.
    pub document: JsonValue,
}

/// The resources behind a sequence of references.
pub open spec fn deref_all(s: Seq<&Resource>) -> Seq<Resource> {
    s.map_values(|x: &Resource| *x)
}

/// Status query for filtering resources.
#[derive(Debug, Clone)]
pub struct StatusQuery {
    pub json_path: String,
    pub expected_values: Vec<String>,
}

/// One port of a service.
pub struct ServicePort {
    pub name: Option<String>,
    pub port: i32,
}

/// What a service specifies.
pub struct ServiceSpec {
    pub cluster_ip: Option<String>,
    pub ports: Option<Vec<ServicePort>>,
}

/// One service as the orchestrator lists it.
pub struct ServiceRecord {
    pub name: Option<String>,
    pub labels: Option<Vec<(String, String)>>,
    pub spec: Option<ServiceSpec>,
}

/// Why no address or port could be read from a resource.
#[derive(Debug, Clone, Copy, PartialEq, Eq, Structural)]
pub enum ExtractError {
    /// The address path selects nothing in the resource.
    AddressPathNotFound,
    /// An address type is given and the address path does not select an array.
    AddressNotArray,
    /// No entry of the addresses array has the wanted type and an address.
    NoAddressOfType,
    /// The address path does not select a string.
    AddressNotString,
    /// No port of the wanted name stands in the resource.
    PortNameNotFound,
    /// The port path selects nothing in the resource.
    PortPathNotFound,
    /// The port path does not select a number.
    PortNotNumber,
    /// The port is not a number from 0 to 65535.
    PortOutOfRange,
    /// Neither a port path nor a port name is given.
    NoPortSource,
}

impl ExtractError {
    /// The message for this error.
    pub open spec fn spec_message(self) -> Seq<char> {
        match self {
            ExtractError::AddressPathNotFound => "Failed to extract address from path"@,
            ExtractError::AddressNotArray =>
                "Address path did not resolve to array when addressType is specified"@,
            ExtractError::NoAddressOfType => "No address found with the given type in addresses array"@,
            ExtractError::AddressNotString => "Address path did not resolve to a string"@,
            ExtractError::PortNameNotFound => "Port with the given name not found in resource"@,
            ExtractError::PortPathNotFound => "Failed to extract port from path"@,
            ExtractError::PortNotNumber => "Port path did not resolve to a number"@,
            ExtractError::PortOutOfRange => "Port number out of range"@,
            ExtractError::NoPortSource => "Either port_path or port_name must be provided"@,
        }
    }

    /// The message for this error.
    pub fn message(&self) -> (r: &'static str)
        ensures
            r@ == self.spec_message(),
    {
        match self {
            ExtractError::AddressPathNotFound => "Failed to extract address from path",
            ExtractError::AddressNotArray =>
                "Address path did not resolve to array when addressType is specified",
            ExtractError::NoAddressOfType => "No address found with the given type in addresses array",
            ExtractError::AddressNotString => "Address path did not resolve to a string",
            ExtractError::PortNameNotFound => "Port with the given name not found in resource",
            ExtractError::PortPathNotFound => "Failed to extract port from path",
            ExtractError::PortNotNumber => "Port path did not resolve to a number",
            ExtractError::PortOutOfRange => "Port number out of range",
            ExtractError::NoPortSource => "Either port_path or port_name must be provided",
        }
    }
}

/// The text member `name` of `v`, where it has one.
pub open spec fn spec_text_field(v: JsonValue, name: Seq<char>) -> Option<Seq<char>> {
    match spec_field(v, name) {
        Some(JsonValue::Text(s)) => Some(s@),
        _ => None,
    }
}

/// The number member `name` of `v`, where it has one.
pub open spec fn spec_number_field(v: JsonValue, name: Seq<char>) -> Option<JsonNumber> {
    match spec_field(v, name) {
        Some(JsonValue::Number(n)) => Some(n),
        _ => None,
    }
}

/// The array member `name` of `v`, where it has one.
pub open spec fn spec_array_field(v: JsonValue, name: Seq<char>) -> Option<Seq<JsonValue>> {
    match spec_field(v, name) {
        Some(JsonValue::Array(items)) => Some(items@),
        _ => None,
    }
}

/// The address of an entry of an addresses array, where its `type` is
/// `address_type` and its `address` is a string.
pub open spec fn spec_entry_address(entry: JsonValue, address_type: Seq<char>) -> Option<Seq<char>> {
    if spec_text_field(entry, "type"@) == Some(address_type) {
        spec_text_field(entry, "address"@)
    } else {
        None
    }
}

/// The address of the first entry that has one for `address_type`.
pub open spec fn spec_typed_address(entries: Seq<JsonValue>, address_type: Seq<char>) -> Option<
    Seq<char>,
>
    decreases entries.len(),
{
    if entries.len() == 0 {
        None
    } else {
        match spec_entry_address(entries[0], address_type) {
            Some(a) => Some(a),
            None => spec_typed_address(entries.skip(1), address_type),
        }
    }
}

/// The address of a resource: the string at `path`, or, with an address
/// type, the address of the first entry of that type in the array at `path`.
pub open spec fn spec_extract_address(
    document: JsonValue,
    path: Seq<char>,
    address_type: Option<Seq<char>>,
) -> Result<Seq<char>, ExtractError> {
    match spec_extract(document, path) {
        None => Err(ExtractError::AddressPathNotFound),
        Some(value) => match address_type {
            Some(t) => match value {
                JsonValue::Array(entries) => match spec_typed_address(entries@, t) {
                    Some(a) => Ok(a),
                    None => Err(ExtractError::NoAddressOfType),
                },
                _ => Err(ExtractError::AddressNotArray),
            },
            None => match value {
                JsonValue::Text(s) => Ok(s@),
                _ => Err(ExtractError::AddressNotString),
            },
        },
    }
}

/// A JSON number as a port.
pub open spec fn spec_port_number(n: JsonNumber) -> Result<u16, ExtractError> {
    match n.as_u64 {
        Some(v) => if v <= 65535 {
            Ok(v as u16)
        } else {
            Err(ExtractError::PortOutOfRange)
        },
        None => Err(ExtractError::PortOutOfRange),
    }
}

/// The number under `field` of the first port entry that is named `name` and
/// has a number there.
pub open spec fn spec_named_port(ports: Seq<JsonValue>, name: Seq<char>, field: Seq<char>) -> Option<
    JsonNumber,
>
    decreases ports.len(),
{
    if ports.len() == 0 {
        None
    } else if spec_text_field(ports[0], "name"@) == Some(name) && spec_number_field(
        ports[0],
        field,
    ) is Some {
        spec_number_field(ports[0], field)
    } else {
        spec_named_port(ports.skip(1), name, field)
    }
}

/// The container port named `name` of the first container that has one.
pub open spec fn spec_container_port(containers: Seq<JsonValue>, name: Seq<char>) -> Option<
    JsonNumber,
>
    decreases containers.len(),
{
    if containers.len() == 0 {
        None
    } else {
        let here = match spec_array_field(containers[0], "ports"@) {
            Some(ports) => spec_named_port(ports, name, "containerPort"@),
            None => None,
        };
        match here {
            Some(n) => Some(n),
            None => spec_container_port(containers.skip(1), name),
        }
    }
}

/// The port entries under `status.ports`, where `status` is an object that has such an array.
pub open spec fn spec_status_ports(document: JsonValue) -> Option<Seq<JsonValue>> {
    match spec_field(document, "status"@) {
        Some(JsonValue::Object(entries)) => spec_array_field(JsonValue::Object(entries), "ports"@),
        _ => None,
    }
}

/// The containers under `spec.containers`, where `spec` is an object that has such an array.
pub open spec fn spec_containers(document: JsonValue) -> Option<Seq<JsonValue>> {
    match spec_field(document, "spec"@) {
        Some(JsonValue::Object(entries)) => spec_array_field(
            JsonValue::Object(entries),
            "containers"@,
        ),
        _ => None,
    }
}

/// The number that stands for the port named `name`: under `status.ports`
/// first, then among the ports of the containers.
pub open spec fn spec_port_by_name(document: JsonValue, name: Seq<char>) -> Option<JsonNumber> {
    let in_status = match spec_status_ports(document) {
        Some(ports) => spec_named_port(ports, name, "port"@),
        None => None,
    };
    match in_status {
        Some(n) => Some(n),
        None => match spec_containers(document) {
            Some(containers) => spec_container_port(containers, name),
            None => None,
        },
    }
}

/// The port of a resource: by name where a name is given, else by path.
pub open spec fn spec_extract_port(
    document: JsonValue,
    port_path: Option<Seq<char>>,
    port_name: Option<Seq<char>>,
) -> Result<u16, ExtractError> {
    match port_name {
        Some(name) => match spec_port_by_name(document, name) {
            Some(n) => spec_port_number(n),
            None => Err(ExtractError::PortNameNotFound),
        },
        None => match port_path {
            Some(path) => match spec_extract(document, path) {
                None => Err(ExtractError::PortPathNotFound),
                Some(JsonValue::Number(n)) => spec_port_number(n),
                Some(_) => Err(ExtractError::PortNotNumber),
            },
            None => Err(ExtractError::NoPortSource),
        },
    }
}

/// The port that a named port mapping selects in a resource.
pub open spec fn spec_mapped_port(document: JsonValue, mapping: PortMapping) -> Result<
    u16,
    ExtractError,
> {
    spec_extract_port(
        document,
        opt_string_view(mapping.port_path),
        opt_string_view(mapping.port_name),
    )
}

/// Whether the value at `json_path` is one of the expected values: a
/// string as it stands, a number as JSON writes it, a boolean as `true` or `false`.
pub open spec fn spec_matches_status(
    document: JsonValue,
    json_path: Seq<char>,
    expected_values: Seq<String>,
) -> bool {
    match spec_extract(document, json_path) {
        Some(JsonValue::Text(s)) => spec_contains_text(expected_values, s@),
        Some(JsonValue::Number(n)) => spec_contains_text(expected_values, n.text@),
        Some(JsonValue::Bool(b)) => spec_contains_text(
            expected_values,
            if b {
                "true"@
            } else {
                "false"@
            },
        ),
        _ => false,
    }
}

/// Whether `held` has the value `value` under `key`.
pub open spec fn spec_has_entry(held: Seq<(String, String)>, key: Seq<char>, value: Seq<char>) -> bool {
    match spec_lookup(held, key) {
        Some(v) => v@ == value,
        None => false,
    }
}

/// Whether `annotations` holds every entry of `selector` with the same value.
pub open spec fn spec_matches_annotations(
    annotations: Option<Vec<(String, String)>>,
    selector: Seq<(String, String)>,
) -> bool {
    match annotations {
        Some(held) => forall|i: int|
            0 <= i < selector.len() ==> #[trigger] spec_has_entry(
                held@,
                selector[i].0@,
                selector[i].1@,
            ),
        None => false,
    }
}

/// A status filter as contracts speak of it: the path and the values accepted there.
pub type StatusFilterView = Option<(Seq<char>, Seq<String>)>;

/// The view of a status filter.
pub open spec fn status_view(status: Option<(&str, &Vec<String>)>) -> StatusFilterView {
    match status {
        Some((path, expected)) => Some((path@, expected@)),
        None => None,
    }
}

/// The view of an annotation selector.
pub open spec fn selector_view(selector: Option<&Vec<(String, String)>>) -> Option<
    Seq<(String, String)>,
> {
    match selector {
        Some(entries) => Some(entries@),
        None => None,
    }
}

/// Whether a resource passes the filters that are given.
pub open spec fn spec_keeps(
    resource: Resource,
    status: StatusFilterView,
    annotation_selector: Option<Seq<(String, String)>>,
) -> bool {
    &&& status matches Some(q) ==> spec_matches_status(resource.document, q.0, q.1)
    &&& annotation_selector matches Some(sel) ==> spec_matches_annotations(
        resource.annotations,
        sel,
    )
}

/// The resources that a query keeps, in the order listed.
pub open spec fn spec_kept(
    listed: Seq<Resource>,
    status: StatusFilterView,
    annotation_selector: Option<Seq<(String, String)>>,
) -> Seq<Resource> {
    listed.filter(|x: Resource| spec_keeps(x, status, annotation_selector))
}

/// The error of the first port mapping whose port cannot be read.
pub open spec fn spec_first_port_error(document: JsonValue, mappings: Seq<PortMapping>) -> Option<
    ExtractError,
>
    decreases mappings.len(),
{
    if mappings.len() == 0 {
        None
    } else {
        match spec_mapped_port(document, mappings[0]) {
            Err(e) => Some(e),
            Ok(_) => spec_first_port_error(document, mappings.skip(1)),
        }
    }
}

/// The port read for the name `name`: that of the last port mapping of that name.
pub open spec fn spec_port_named(
    document: JsonValue,
    mappings: Seq<PortMapping>,
    name: Seq<char>,
) -> Option<u16>
    decreases mappings.len(),
{
    if mappings.len() == 0 {
        None
    } else if mappings.last().name@ == name {
        match spec_mapped_port(document, mappings.last()) {
            Ok(port) => Some(port),
            Err(_) => None,
        }
    } else {
        spec_port_named(document, mappings.drop_last(), name)
    }
}

/// Ports read one for each mapping are, looked up by name, the ports read for that name.
pub proof fn lemma_ports_by_name(
    document: JsonValue,
    mappings: Seq<PortMapping>,
    ports: Seq<(String, u16)>,
    name: Seq<char>,
)
    requires
        ports.len() == mappings.len(),
        forall|i: int|
            0 <= i < ports.len() ==> {
                &&& (#[trigger] ports[i]).0@ == mappings[i].name@
                &&& spec_mapped_port(document, mappings[i]) == Ok::<u16, ExtractError>(ports[i].1)
            },
    ensures
        crate::text::spec_lookup_last(ports, name) == spec_port_named(document, mappings, name),
    decreases mappings.len(),
{
    if mappings.len() > 0 {
        let last = ports.len() - 1;
        assert(ports[last].0@ == mappings[last].name@);
        assert forall|i: int| 0 <= i < ports.drop_last().len() implies {
            &&& (#[trigger] ports.drop_last()[i]).0@ == mappings.drop_last()[i].name@
            &&& spec_mapped_port(document, mappings.drop_last()[i]) == Ok::<u16, ExtractError>(
                ports.drop_last()[i].1,
            )
        } by {
            assert(ports.drop_last()[i] == ports[i]);
        }
        lemma_ports_by_name(document, mappings.drop_last(), ports.drop_last(), name);
    }
}

/// The text of a label selector: each label as `key=value`, with commas between.
pub open spec fn spec_selector_text(labels: Seq<(String, String)>) -> Seq<char>
    decreases labels.len(),
{
    if labels.len() == 0 {
        Seq::empty()
    } else if labels.len() == 1 {
        labels[0].0@ + "="@ + labels[0].1@
    } else {
        spec_selector_text(labels.drop_last()) + ","@ + labels.last().0@ + "="@ + labels.last().1@
    }
}

/// The port of the first port of a service that is named `port_name`.
pub open spec fn spec_service_port(ports: Seq<ServicePort>, port_name: Seq<char>) -> Option<i32>
    decreases ports.len(),
{
    if ports.len() == 0 {
        None
    } else if opt_string_view(ports[0].name) == Some(port_name) {
        Some(ports[0].port)
    } else {
        spec_service_port(ports.skip(1), port_name)
    }
}

/// The target that a service offers for a resource: its cluster address (empty
/// where it has none) and its port named `port_name`, where the service
/// carries the label `selector_label` with the resource's name and has such a port.
pub open spec fn spec_service_target(
    service: ServiceRecord,
    resource_name: Seq<char>,
    selector_label: Seq<char>,
    port_name: Seq<char>,
) -> Option<(Seq<char>, u16)> {
    match (service.labels, service.spec) {
        (Some(labels), Some(spec)) => match spec_lookup(labels@, selector_label) {
            Some(value) => if value@ == resource_name {
                match spec.ports {
                    Some(ports) => match spec_service_port(ports@, port_name) {
                        Some(p) => Some(
                            (
                                match spec.cluster_ip {
                                    Some(ip) => ip@,
                                    None => Seq::<char>::empty(),
                                },
                                p as u16,
                            ),
                        ),
                        None => None,
                    },
                    None => None,
                }
            } else {
                None
            },
            None => None,
        },
        _ => None,
    }
}

/// The target of the first service that offers one for a resource.
pub open spec fn spec_find_service(
    services: Seq<ServiceRecord>,
    resource_name: Seq<char>,
    selector_label: Seq<char>,
    port_name: Seq<char>,
) -> Option<(Seq<char>, u16)>
    decreases services.len(),
{
    if services.len() == 0 {
        None
    } else {
        match spec_service_target(services[0], resource_name, selector_label, port_name) {
            Some(target) => Some(target),
            None => spec_find_service(services.skip(1), resource_name, selector_label, port_name),
        }
    }
}

/// The ports read for the port mappings, each under its mapping's name.
pub open spec fn spec_named_ports(document: JsonValue, mappings: Seq<PortMapping>) -> Seq<
    (Seq<char>, u16),
> {
    Seq::new(
        mappings.len(),
        |i: int|
            (
                mappings[i].name@,
                match spec_mapped_port(document, mappings[i]) {
                    Ok(port) => port,
                    Err(_) => 0u16,
                },
            ),
    )
}

/// Named ports as contracts speak of them.
pub open spec fn named_ports_view(ports: Seq<(String, u16)>) -> Seq<(Seq<char>, u16)> {
    ports.map_values(|e: (String, u16)| (e.0@, e.1))
}

/// Reads a JSON number as a port.
fn port_number(n: &JsonNumber) -> (r: Result<u16, ExtractError>)
    ensures
        r == spec_port_number(*n),
{
    match n.as_u64 {
        Some(v) => if v <= 65535 {
            Ok(v as u16)
        } else {
            Err(ExtractError::PortOutOfRange)
        },
        None => Err(ExtractError::PortOutOfRange),
    }
}

/// The text member `name` of `v`.
fn text_field<'a>(v: &'a JsonValue, name: &str) -> (r: Option<&'a String>)
    ensures
        match r {
            Some(s) => spec_text_field(*v, name@) == Some(s@),
            None => spec_text_field(*v, name@) is None,
        },
{
    match v.get(name) {
        Some(JsonValue::Text(s)) => Some(s),
        _ => None,
    }
}

/// The number member `name` of `v`.
fn number_field<'a>(v: &'a JsonValue, name: &str) -> (r: Option<&'a JsonNumber>)
    ensures
        match r {
            Some(n) => spec_number_field(*v, name@) == Some(*n),
            None => spec_number_field(*v, name@) is None,
        },
{
    match v.get(name) {
        Some(JsonValue::Number(n)) => Some(n),
        _ => None,
    }
}

/// The array member `name` of `v`.
fn array_field<'a>(v: &'a JsonValue, name: &str) -> (r: Option<&'a Vec<JsonValue>>)
    ensures
        match r {
            Some(items) => spec_array_field(*v, name@) == Some(items@),
            None => spec_array_field(*v, name@) is None,
        },
{
    match v.get(name) {
        Some(JsonValue::Array(items)) => Some(items),
        _ => None,
    }
}

/// The number under `field` of the first port entry named `name` that has one.
fn named_port<'a>(ports: &'a Vec<JsonValue>, name: &str, field: &str) -> (r: Option<&'a JsonNumber>)
    ensures
        match r {
            Some(n) => spec_named_port(ports@, name@, field@) == Some(*n),
            None => spec_named_port(ports@, name@, field@) is None,
        },
{
    let mut i: usize = 0;
    assert(ports@.skip(0) =~= ports@);
    while i < ports.len()
        invariant
            i <= ports.len(),
            spec_named_port(ports@, name@, field@) == spec_named_port(
                ports@.skip(i as int),
                name@,
                field@,
            ),
        decreases ports.len() - i,
    {
        let entry = &ports[i];
        assert(ports@.skip(i as int)[0] == *entry);
        assert(ports@.skip(i as int).skip(1) =~= ports@.skip(i + 1));
        if let Some(entry_name) = text_field(entry, "name") {
            if *entry_name.as_str() == *name {
                if let Some(n) = number_field(entry, field) {
                    return Some(n);
                }
            }
        }
        i += 1;
    }
    None
}

/// The container port named `name` of the first container that has one.
fn container_port<'a>(containers: &'a Vec<JsonValue>, name: &str) -> (r: Option<&'a JsonNumber>)
    ensures
        match r {
            Some(n) => spec_container_port(containers@, name@) == Some(*n),
            None => spec_container_port(containers@, name@) is None,
        },
{
    let mut i: usize = 0;
    assert(containers@.skip(0) =~= containers@);
    while i < containers.len()
        invariant
            i <= containers.len(),
            spec_container_port(containers@, name@) == spec_container_port(
                containers@.skip(i as int),
                name@,
            ),
        decreases containers.len() - i,
    {
        let container = &containers[i];
        assert(containers@.skip(i as int)[0] == *container);
        assert(containers@.skip(i as int).skip(1) =~= containers@.skip(i + 1));
        if let Some(ports) = array_field(container, "ports") {
            if let Some(n) = named_port(ports, name, "containerPort") {
                return Some(n);
            }
        }
        i += 1;
    }
    None
}

/// The number that stands for the port named `name` in a resource.
fn port_by_name<'a>(document: &'a JsonValue, name: &str) -> (r: Option<&'a JsonNumber>)
    ensures
        match r {
            Some(n) => spec_port_by_name(*document, name@) == Some(*n),
            None => spec_port_by_name(*document, name@) is None,
        },
{
    if let Some(status) = document.get("status") {
        if let JsonValue::Object(_) = status {
            if let Some(ports) = array_field(status, "ports") {
                if let Some(n) = named_port(ports, name, "port") {
                    return Some(n);
                }
            }
        }
    }
    if let Some(spec) = document.get("spec") {
        if let JsonValue::Object(_) = spec {
            if let Some(containers) = array_field(spec, "containers") {
                return container_port(containers, name);
            }
        }
    }
    None
}

/// The port of the first port of a service that is named `port_name`.
fn service_port(ports: &Vec<ServicePort>, port_name: &str) -> (r: Option<i32>)
    ensures
        r == spec_service_port(ports@, port_name@),
{
    let mut i: usize = 0;
    assert(ports@.skip(0) =~= ports@);
    while i < ports.len()
        invariant
            i <= ports.len(),
            spec_service_port(ports@, port_name@) == spec_service_port(
                ports@.skip(i as int),
                port_name@,
            ),
        decreases ports.len() - i,
    {
        assert(ports@.skip(i as int)[0] == ports@[i as int]);
        assert(ports@.skip(i as int).skip(1) =~= ports@.skip(i + 1));
        if let Some(name) = &ports[i].name {
            if *name.as_str() == *port_name {
                return Some(ports[i].port);
            }
        }
        i += 1;
    }
    None
}

/// The target that one service offers for a resource.
fn service_target(
    service: &ServiceRecord,
    resource_name: &str,
    selector_label: &str,
    port_name: &str,
) -> (r: Option<(String, u16)>)
    ensures
        match r {
            Some((ip, port)) => spec_service_target(
                *service,
                resource_name@,
                selector_label@,
                port_name@,
            ) == Some((ip@, port)),
            None => spec_service_target(*service, resource_name@, selector_label@, port_name@)
                is None,
        },
{
    if let Some(labels) = &service.labels {
        if let Some(value) = lookup(labels, selector_label) {
            if *value.as_str() == *resource_name {
                if let Some(spec) = &service.spec {
                    if let Some(ports) = &spec.ports {
                        if let Some(p) = service_port(ports, port_name) {
                            let ip = match &spec.cluster_ip {
                                Some(ip) => ip.clone(),
                                None => String::new(),
                            };
                            return Some((ip, #[verifier::truncate] (p as u16)));
                        }
                    }
                }
            }
        }
    }
    None
}

/// The rules by which the director reads the orchestrator's resources.
pub struct K8sClient {}

impl K8sClient {
    /// The reading rules.
    pub fn new() -> (r: Self) {
        K8sClient {  }
    }

    /// Extract the address of a resource at a dotted path. With an address
    /// type, the path must select an array, and the address is that of its
    /// first entry whose `type` is the address type and whose `address` is a string.
    pub fn extract_address(
        &self,
        resource: &Resource,
        address_path: &str,
        address_type: Option<&str>,
    ) -> (r: Result<String, ExtractError>)
        ensures
            match r {
                Ok(a) => spec_extract_address(
                    resource.document,
                    address_path@,
                    opt_str_view(address_type),
                ) == Ok::<Seq<char>, ExtractError>(a@),
                Err(e) => spec_extract_address(
                    resource.document,
                    address_path@,
                    opt_str_view(address_type),
                ) == Err::<Seq<char>, ExtractError>(e),
            },
    {
        let value = match resource.document.extract_json_path(address_path) {
            Some(v) => v,
            None => {
                return Err(ExtractError::AddressPathNotFound);
            },
        };
        match address_type {
            Some(t) => match value {
                JsonValue::Array(entries) => {
                    let mut i: usize = 0;
                    assert(entries@.skip(0) =~= entries@);
                    while i < entries.len()
                        invariant
                            i <= entries.len(),
                            spec_typed_address(entries@, t@) == spec_typed_address(
                                entries@.skip(i as int),
                                t@,
                            ),
                            spec_extract(resource.document, address_path@) == Some(*value),
                            *value == JsonValue::Array(*entries),
                            address_type == Some(t),
                        decreases entries.len() - i,
                    {
                        let entry = &entries[i];
                        assert(entries@.skip(i as int)[0] == *entry);
                        assert(entries@.skip(i as int).skip(1) =~= entries@.skip(i + 1));
                        if let Some(entry_type) = text_field(entry, "type") {
                            if *entry_type.as_str() == *t {
                                if let Some(address) = text_field(entry, "address") {
                                    return Ok(address.clone());
                                }
                            }
                        }
                        i += 1;
                    }
                    Err(ExtractError::NoAddressOfType)
                },
                _ => Err(ExtractError::AddressNotArray),
            },
            None => match value {
                JsonValue::Text(s) => Ok(s.clone()),
                _ => Err(ExtractError::AddressNotString),
            },
        }
    }

    /// Extract the port of a resource. With a port name, the port is looked
    /// up by name under `status.ports` (member `port`) and then among the
    /// ports of `spec.containers` (member `containerPort`); otherwise it is
    /// the number at the port path.
    pub fn extract_port(
        &self,
        resource: &Resource,
        port_path: Option<&str>,
        port_name: Option<&str>,
    ) -> (r: Result<u16, ExtractError>)
        ensures
            r == spec_extract_port(
                resource.document,
                opt_str_view(port_path),
                opt_str_view(port_name),
            ),
    {
        if let Some(name) = port_name {
            return match port_by_name(&resource.document, name) {
                Some(n) => port_number(n),
                None => Err(ExtractError::PortNameNotFound),
            };
        }
        match port_path {
            Some(path) => match resource.document.extract_json_path(path) {
                None => Err(ExtractError::PortPathNotFound),
                Some(JsonValue::Number(n)) => port_number(n),
                Some(_) => Err(ExtractError::PortNotNumber),
            },
            None => Err(ExtractError::NoPortSource),
        }
    }

    /// Extract the ports of a resource, one for each port mapping and in
    /// their order, each under its mapping's name. The first mapping whose
    /// port cannot be read gives the error.
    pub fn extract_ports(&self, resource: &Resource, port_mappings: &Vec<PortMapping>) -> (r: Result<
        Vec<(String, u16)>,
        ExtractError,
    >)
        ensures
            match r {
                Ok(ports) => {
                    &&& spec_first_port_error(resource.document, port_mappings@) is None
                    &&& ports@.len() == port_mappings@.len()
                    &&& forall|i: int|
                        0 <= i < ports@.len() ==> {
                            &&& (#[trigger] ports@[i]).0@ == port_mappings@[i].name@
                            &&& spec_mapped_port(resource.document, port_mappings@[i]) == Ok::<
                                u16,
                                ExtractError,
                            >(ports@[i].1)
                        }
                },
                Err(e) => spec_first_port_error(resource.document, port_mappings@) == Some(e),
            },
    {
        let mut ports: Vec<(String, u16)> = Vec::new();
        let mut i: usize = 0;
        assert(port_mappings@.skip(0) =~= port_mappings@);
        while i < port_mappings.len()
            invariant
                i <= port_mappings.len(),
                ports@.len() == i,
                spec_first_port_error(resource.document, port_mappings@) == spec_first_port_error(
                    resource.document,
                    port_mappings@.skip(i as int),
                ),
                forall|k: int|
                    0 <= k < i ==> {
                        &&& (#[trigger] ports@[k]).0@ == port_mappings@[k].name@
                        &&& spec_mapped_port(resource.document, port_mappings@[k]) == Ok::<
                            u16,
                            ExtractError,
                        >(ports@[k].1)
                    },
            decreases port_mappings.len() - i,
        {
            let mapping = &port_mappings[i];
            assert(port_mappings@.skip(i as int)[0] == *mapping);
            assert(port_mappings@.skip(i as int).skip(1) =~= port_mappings@.skip(i + 1));
            match self.extract_port(
                resource,
                opt_as_str(&mapping.port_path),
                opt_as_str(&mapping.port_name),
            ) {
                Ok(port) => {
                    ports.push((mapping.name.clone(), port));
                },
                Err(e) => {
                    return Err(e);
                },
            }
            i += 1;
        }
        Ok(ports)
    }

    /// Check if a resource matches the status query.
    pub fn matches_status_query(&self, resource: &Resource, query: &StatusQuery) -> (r: bool)
        ensures
            r == spec_matches_status(resource.document, query.json_path@, query.expected_values@),
    {
        self.matches_status(resource, query.json_path.as_str(), &query.expected_values)
    }

    /// Check if the value at `json_path` in a resource is one of the expected values.
    pub fn matches_status(
        &self,
        resource: &Resource,
        json_path: &str,
        expected_values: &Vec<String>,
    ) -> (r: bool)
        ensures
            r == spec_matches_status(resource.document, json_path@, expected_values@),
    {
        match resource.document.extract_json_path(json_path) {
            Some(JsonValue::Text(s)) => contains_text(expected_values, s.as_str()),
            Some(JsonValue::Number(n)) => contains_text(expected_values, n.text.as_str()),
            Some(JsonValue::Bool(b)) => contains_text(
                expected_values,
                if *b {
                    "true"
                } else {
                    "false"
                },
            ),
            _ => false,
        }
    }

    /// Check if a resource carries every annotation of the selector.
    pub fn matches_annotation_selector(
        &self,
        resource: &Resource,
        selector: &Vec<(String, String)>,
    ) -> (r: bool)
        ensures
            r == spec_matches_annotations(resource.annotations, selector@),
    {
        let held = match &resource.annotations {
            Some(held) => held,
            None => {
                return false;
            },
        };
        let mut i: usize = 0;
        while i < selector.len()
            invariant
                i <= selector.len(),
                resource.annotations == Some(*held),
                forall|k: int|
                    0 <= k < i ==> #[trigger] spec_has_entry(
                        held@,
                        selector@[k].0@,
                        selector@[k].1@,
                    ),
            decreases selector.len() - i,
        {
            match lookup(held, selector[i].0.as_str()) {
                Some(actual) => {
                    if !(*actual == selector[i].1) {
                        assert(!spec_has_entry(
                            held@,
                            selector@[i as int].0@,
                            selector@[i as int].1@,
                        ));
                        assert(resource.annotations matches Some(h) && h@ == held@);
                        assert(spec_matches_annotations(resource.annotations, selector@)
                            ==> spec_has_entry(
                            held@,
                            selector@[i as int].0@,
                            selector@[i as int].1@,
                        ));
                        return false;
                    }
                },
                None => {
                    assert(!spec_has_entry(
                        held@,
                        selector@[i as int].0@,
                        selector@[i as int].1@,
                    ));
                    assert(resource.annotations matches Some(h) && h@ == held@);
                    assert(spec_matches_annotations(resource.annotations, selector@)
                        ==> spec_has_entry(
                        held@,
                        selector@[i as int].0@,
                        selector@[i as int].1@,
                    ));
                    return false;
                },
            }
            i += 1;
        }
        true
    }

    /// Whether a resource passes the filters that are given.
    pub fn keeps(
        &self,
        resource: &Resource,
        status: Option<(&str, &Vec<String>)>,
        annotation_selector: Option<&Vec<(String, String)>>,
    ) -> (r: bool)
        ensures
            r == spec_keeps(*resource, status_view(status), selector_view(annotation_selector)),
    {
        if let Some((path, expected)) = status {
            if !self.matches_status(resource, path, expected) {
                return false;
            }
        }
        if let Some(sel) = annotation_selector {
            if !self.matches_annotation_selector(resource, sel) {
                return false;
            }
        }
        true
    }

    /// Of the resources that the orchestrator listed, those that a query
    /// keeps, in the order listed: with a status query, those whose status
    /// matches; with an annotation selector, those that carry every
    /// annotation of it.
    pub fn query_resources<'a>(
        &self,
        listed: &'a Vec<Resource>,
        status: Option<(&str, &Vec<String>)>,
        annotation_selector: Option<&Vec<(String, String)>>,
    ) -> (r: Vec<&'a Resource>)
        ensures
            deref_all(r@) == spec_kept(
                listed@,
                status_view(status),
                selector_view(annotation_selector),
            ),
    {
        let ghost pred = |x: Resource|
            spec_keeps(x, status_view(status), selector_view(annotation_selector));
        let mut kept: Vec<&'a Resource> = Vec::new();
        let mut i: usize = 0;
        assert(kept@.map_values(|x: &Resource| *x) =~= listed@.take(0).filter(pred)) by {
            reveal_with_fuel(Seq::filter, 2);
        }
        while i < listed.len()
            invariant
                i <= listed.len(),
                pred == |x: Resource|
                    spec_keeps(x, status_view(status), selector_view(annotation_selector)),
                kept@.map_values(|x: &Resource| *x) == listed@.take(i as int).filter(pred),
            decreases listed.len() - i,
        {
            let ghost before = kept@.map_values(|x: &Resource| *x);
            let ghost next = listed@.take(i + 1);
            assert(next.drop_last() =~= listed@.take(i as int));
            assert(next.last() == listed@[i as int]);
            reveal_with_fuel(Seq::filter, 2);
            assert(next.filter(pred) == if pred(next.last()) {
                next.drop_last().filter(pred).push(next.last())
            } else {
                next.drop_last().filter(pred)
            });
            if self.keeps(&listed[i], status, annotation_selector) {
                kept.push(&listed[i]);
                assert(kept@.map_values(|x: &Resource| *x) =~= before.push(listed@[i as int]));
            } else {
                assert(!pred(listed@[i as int]));
            }
            i += 1;
        }
        assert(listed@.take(i as int) =~= listed@);
        kept
    }

    /// Find the service for a resource among the services that the
    /// orchestrator listed: the first one that carries the label
    /// `selector_label` with the resource's name and has a port named
    /// `port_name`. Its cluster address and that port are the target.
    pub fn find_service_for_resource(
        &self,
        services: &Vec<ServiceRecord>,
        resource_name: &str,
        selector_label: &str,
        port_name: &str,
    ) -> (r: Option<(String, u16)>)
        ensures
            match r {
                Some((ip, port)) => spec_find_service(
                    services@,
                    resource_name@,
                    selector_label@,
                    port_name@,
                ) == Some((ip@, port)),
                None => spec_find_service(services@, resource_name@, selector_label@, port_name@)
                    is None,
            },
    {
        let mut i: usize = 0;
        assert(services@.skip(0) =~= services@);
        while i < services.len()
            invariant
                i <= services.len(),
                spec_find_service(services@, resource_name@, selector_label@, port_name@)
                    == spec_find_service(
                    services@.skip(i as int),
                    resource_name@,
                    selector_label@,
                    port_name@,
                ),
            decreases services.len() - i,
        {
            assert(services@.skip(i as int)[0] == services@[i as int]);
            assert(services@.skip(i as int).skip(1) =~= services@.skip(i + 1));
            let found = service_target(&services[i], resource_name, selector_label, port_name);
            if let Some(target) = found {
                return Some(target);
            }
            i += 1;
        }
        None
    }

    /// The label selector of a list request: each label as `key=value`,
    /// in their order, with commas between.
    pub fn label_selector_text(&self, labels: &Vec<(String, String)>) -> (r: String)
        ensures
            r@ == spec_selector_text(labels@),
    {
        let mut out = String::new();
        let mut i: usize = 0;
        assert(labels@.take(0) =~= Seq::<(String, String)>::empty());
        while i < labels.len()
            invariant
                i <= labels.len(),
                out@ == spec_selector_text(labels@.take(i as int)),
            decreases labels.len() - i,
        {
            assert(labels@.take(i + 1).drop_last() =~= labels@.take(i as int));
            assert(labels@.take(i + 1).last() == labels@[i as int]);
            if i > 0 {
                out.append(",");
            }
            out.append(labels[i].0.as_str());
            out.append("=");
            out.append(labels[i].1.as_str());
            proof {
                let prev = spec_selector_text(labels@.take(i as int));
                let e = labels@[i as int];
                if i > 0 {
                    assert(out@ =~= prev + ","@ + e.0@ + "="@ + e.1@);
                } else {
                    assert(prev =~= Seq::<char>::empty());
                    assert(out@ =~= e.0@ + "="@ + e.1@);
                }
            }
            i += 1;
        }
        assert(labels@.take(i as int) =~= labels@);
        out
    }

    /// The API version of a resource mapping: the version alone for the core
    /// group, else group and version with a slash between.
    pub fn api_version(&self, mapping: &ResourceMapping) -> (r: String)
        ensures
            r@ == if mapping.group@.len() == 0 {
                mapping.version@
            } else {
                mapping.group@ + "/"@ + mapping.version@
            },
    {
        if mapping.group.as_str().is_empty() {
            mapping.version.clone()
        } else {
            let mut s = mapping.group.clone();
            s.append("/");
            s.append(mapping.version.as_str());
            s
        }
    }
}

} // verus!
