//! Configuration of the director: data ports, default endpoint and the
//! recipes that map a resource type to an address and its ports.

use vstd::prelude::*;
use vstd::string::StringExecFns;
use crate::load_balancer::LoadBalancingConfig;

verus! {

/// Transport protocol of a data port.
#[derive(Debug, Clone, Copy, PartialEq, Eq, Hash, Structural)]
pub enum Protocol {
    Udp,
    Tcp,
}

impl Protocol {
    /// The lower-case name of the protocol, as configuration writes it.
    pub open spec fn spec_name(self) -> Seq<char> {
        match self {
            Protocol::Udp => "udp"@,
            Protocol::Tcp => "tcp"@,
        }
    }

    /// Returns the lower-case name of the protocol.
    pub fn name(&self) -> (s: &'static str)
        ensures
            s@ == self.spec_name(),
    {
        match self {
            Protocol::Udp => "udp",
            Protocol::Tcp => "tcp",
        }
    }
}

/// Configuration for a single data port.
#[derive(Debug)]
pub struct DataPortConfig {
    pub port: u16,
    pub protocol: Protocol,
    pub name: String,
}

impl Clone for DataPortConfig {
    fn clone(&self) -> (r: Self)
        ensures
            r == *self,
    {
        DataPortConfig { port: self.port, protocol: self.protocol, name: self.name.clone() }
    }
}

/// Status query configuration: a path into a resource and the values accepted there.
#[derive(Debug, Clone)]
pub struct StatusQueryConfig {
    /// Path to the status field (for example `status.state`).
    pub json_path: String,
    /// The query matches if the field holds any of these values.
    pub expected_values: Vec<String>,
}

/// The candidates for clients that arrive without a session.
#[derive(Debug, Clone)]
pub struct DefaultEndpoint {
    /// Resource type to query (for example `gameserver`).
    pub resource_type: String,
    /// Namespace to search in.
    pub namespace: String,
    /// Labels that a candidate must carry.
    pub label_selector: Option<Vec<(String, String)>>,
    /// Status filter on the candidates.
    pub status_query: Option<StatusQueryConfig>,
    /// Annotations that a candidate must carry.
    pub annotation_selector: Option<Vec<(String, String)>>,
}

/// One named port of a multi-port resource mapping.
#[derive(Debug, Clone)]
pub struct PortMapping {
    pub name: String,
    pub port_name: Option<String>,
    pub port_path: Option<String>,
}

/// The recipe that maps a resource type to orchestrator resources and says
/// where their address and ports are found.
#[derive(Debug, Clone)]
pub struct ResourceMapping {
    /// API group of the resource (for example `agones.dev`).
    pub group: String,
    /// API version of the resource (for example `v1`).
    pub version: String,
    /// Plural resource name (for example `gameservers`).
    pub resource: String,
    /// Label on a service that links it to a resource (service-based routing).
    pub service_selector_label: Option<String>,
    /// Name of the port on the service to route to (service-based routing).
    pub service_target_port_name: Option<String>,
    /// Path to the address in the resource; with `address_type`, to an array of addresses.
    pub address_path: Option<String>,
    /// The `type` of the entry to pick from the array of addresses.
    pub address_type: Option<String>,
    /// Path to the port in the resource.
    pub port_path: Option<String>,
    /// Name of the port to look up in the resource.
    pub port_name: Option<String>,
    /// Named ports of a multi-port resource.
    pub ports: Option<Vec<PortMapping>>,
}

/// Main configuration of the director.
#[derive(Debug, Clone)]
pub struct Config {
    /// Port of the query channel.
    pub query_port: u16,
    /// A single datagram port (legacy form of `data_ports`).
    pub data_port: Option<u16>,
    /// The data ports.
    pub data_ports: Option<Vec<DataPortConfig>>,
    /// The candidates for clients that arrive without a session.
    pub default_endpoint: DefaultEndpoint,
    /// How long a token can be looked up, in seconds.
    pub token_ttl_seconds: u64,
    /// How long a session may be idle before it is reclaimed, in seconds.
    pub session_timeout_seconds: u64,
    /// Prefix of a control packet, as hexadecimal text; empty disables control packets.
    pub control_packet_magic_bytes: String,
    /// Resource type to resource mapping. A type is looked up as its first entry.
    pub resource_query_mapping: Vec<(String, ResourceMapping)>,
    /// How a backend is chosen among the candidates.
    pub load_balancing: LoadBalancingConfig,
}

/// Why a configuration is refused.
#[derive(Debug, Clone, Copy, PartialEq, Eq, Structural)]
pub enum ConfigError {
    /// The query port is zero.
    QueryPortZero,
    /// No data port is configured.
    NoDataPorts,
    /// A data port is zero.
    DataPortZero,
    /// A data port has an empty name.
    DataPortNameEmpty,
    /// Two data ports have the same name.
    DuplicateDataPortName,
    /// The default endpoint's resource type is empty.
    ResourceTypeEmpty,
    /// The default endpoint's namespace is empty.
    NamespaceEmpty,
    /// No resource mapping is configured.
    NoResourceMapping,
    /// The control packet prefix is not hexadecimal text.
    InvalidMagicBytes,
}

impl ConfigError {
    /// The message for this error.
    pub open spec fn spec_message(self) -> Seq<char> {
        match self {
            ConfigError::QueryPortZero => "query_port must be non-zero"@,
            ConfigError::NoDataPorts => "At least one data port must be configured"@,
            ConfigError::DataPortZero => "data_port must be non-zero"@,
            ConfigError::DataPortNameEmpty => "data_port name must not be empty"@,
            ConfigError::DuplicateDataPortName => "data_port names must be unique"@,
            ConfigError::ResourceTypeEmpty => "default_endpoint.resource_type must not be empty"@,
            ConfigError::NamespaceEmpty => "default_endpoint.namespace must not be empty"@,
            ConfigError::NoResourceMapping => "resource_query_mapping must not be empty"@,
            ConfigError::InvalidMagicBytes =>
                "control_packet_magic_bytes must be a valid hex string"@,
        }
    }

    /// The message for this error.
    pub fn message(&self) -> (r: &'static str)
        ensures
            r@ == self.spec_message(),
    {
        match self {
            ConfigError::QueryPortZero => "query_port must be non-zero",
            ConfigError::NoDataPorts => "At least one data port must be configured",
            ConfigError::DataPortZero => "data_port must be non-zero",
            ConfigError::DataPortNameEmpty => "data_port name must not be empty",
            ConfigError::DuplicateDataPortName => "data_port names must be unique",
            ConfigError::ResourceTypeEmpty => "default_endpoint.resource_type must not be empty",
            ConfigError::NamespaceEmpty => "default_endpoint.namespace must not be empty",
            ConfigError::NoResourceMapping => "resource_query_mapping must not be empty",
            ConfigError::InvalidMagicBytes =>
                "control_packet_magic_bytes must be a valid hex string",
        }
    }
}

/// Whether `c` is a hexadecimal digit, in either case.
pub open spec fn is_hex_digit(c: char) -> bool {
    ('0' <= c && c <= '9') || ('a' <= c && c <= 'f') || ('A' <= c && c <= 'F')
}

/// The number a hexadecimal digit stands for.
pub open spec fn hex_value(c: char) -> nat {
    if '0' <= c && c <= '9' {
        (c as u32 - '0' as u32) as nat
    } else if 'a' <= c && c <= 'f' {
        (c as u32 - 'a' as u32 + 10) as nat
    } else {
        (c as u32 - 'A' as u32 + 10) as nat
    }
}

/// The bytes that hexadecimal text denotes, two digits to a byte, the high
/// digit first; nothing where the text has an odd length or holds anything
/// but hexadecimal digits.
pub open spec fn spec_hex_decode(s: Seq<char>) -> Option<Seq<u8>> {
    if s.len() % 2 == 0 && (forall|i: int| 0 <= i < s.len() ==> is_hex_digit(#[trigger] s[i])) {
        Some(
            Seq::new(
                s.len() / 2,
                |i: int| (hex_value(s[2 * i]) * 16 + hex_value(s[2 * i + 1])) as u8,
            ),
        )
    } else {
        None
    }
}

/// `hex::FromHexError`, the reason why `hex::decode` refused a text.
#[verifier::external_type_specification]
#[verifier::external_body]
pub struct ExFromHexError(hex::FromHexError);

/// `hex::decode` on the bytes of `text`. It refuses text of odd length and
/// text with a character that is no hexadecimal digit; otherwise each pair of
/// digits gives one byte, the first digit being the high half.
#[verifier::external_body]
fn hex_decode(text: &str) -> (r: Result<Vec<u8>, hex::FromHexError>)
    ensures
        match r {
            Ok(bytes) => spec_hex_decode(text@) == Some(bytes@),
            Err(_) => spec_hex_decode(text@) is None,
        },
{
    hex::decode(text)
}

/// The name of the data port used where none is configured.
pub open spec fn default_port_name() -> Seq<char> {
    "default"@
}

impl Config {
    /// The configured data ports: `data_ports` where it is set, else the
    /// single legacy port, else port 7777; the latter two as one UDP port
    /// named `default`.
    pub open spec fn spec_data_ports(self, ports: Seq<DataPortConfig>) -> bool {
        match self.data_ports {
            Some(configured) => ports == configured@,
            None => {
                &&& ports.len() == 1
                &&& ports[0].port == match self.data_port {
                    Some(port) => port,
                    None => 7777u16,
                }
                &&& ports[0].protocol == Protocol::Udp
                &&& ports[0].name@ == default_port_name()
            },
        }
    }

    /// Get the data ports configuration (handles the legacy single port).
    pub fn get_data_ports(&self) -> (r: Vec<DataPortConfig>)
        ensures
            self.spec_data_ports(r@),
    {
        match &self.data_ports {
            Some(ports) => {
                let mut out: Vec<DataPortConfig> = Vec::new();
                let mut i: usize = 0;
                while i < ports.len()
                    invariant
                        i <= ports.len(),
                        out@ == ports@.take(i as int),
                    decreases ports.len() - i,
                {
                    out.push(ports[i].clone());
                    assert(ports@.take(i + 1) =~= ports@.take(i as int).push(ports@[i as int]));
                    i += 1;
                }
                assert(ports@.take(i as int) =~= ports@);
                out
            },
            None => {
                let port: u16 = match self.data_port {
                    Some(port) => port,
                    None => 7777,
                };
                let mut out: Vec<DataPortConfig> = Vec::new();
                out.push(
                    DataPortConfig {
                        port,
                        protocol: Protocol::Udp,
                        name: String::from_str("default"),
                    },
                );
                out
            },
        }
    }

    /// Get the default endpoint configuration.
    pub fn get_default_endpoint(&self) -> (r: &DefaultEndpoint)
        ensures
            *r == self.default_endpoint,
    {
        &self.default_endpoint
    }

    /// Get the load balancing configuration.
    pub fn get_load_balancing(&self) -> (r: &LoadBalancingConfig)
        ensures
            *r == self.load_balancing,
    {
        &self.load_balancing
    }

    /// The resource mapping configured for `resource_type`.
    pub fn find_mapping(&self, resource_type: &str) -> (r: Option<&ResourceMapping>)
        ensures
            match r {
                Some(m) => crate::text::spec_lookup(self.resource_query_mapping@, resource_type@)
                    == Some(*m),
                None => crate::text::spec_lookup(self.resource_query_mapping@, resource_type@)
                    is None,
            },
    {
        crate::text::lookup(&self.resource_query_mapping, resource_type)
    }

    /// The first fault among the data ports: a zero port or an empty name.
    pub open spec fn spec_port_fault(ports: Seq<DataPortConfig>) -> Option<ConfigError>
        decreases ports.len(),
    {
        if ports.len() == 0 {
            None
        } else if ports[0].port == 0 {
            Some(ConfigError::DataPortZero)
        } else if ports[0].name@.len() == 0 {
            Some(ConfigError::DataPortNameEmpty)
        } else {
            Self::spec_port_fault(ports.skip(1))
        }
    }

    /// Whether two of the data ports have the same name.
    pub open spec fn spec_duplicate_names(ports: Seq<DataPortConfig>) -> bool {
        exists|i: int, j: int|
            0 <= i < j < ports.len() && (#[trigger] ports[i]).name@ == (#[trigger] ports[j]).name@
    }

    /// The outcome of validation for a configuration whose data ports are `ports`.
    pub open spec fn spec_validate(self, ports: Seq<DataPortConfig>) -> Result<(), ConfigError> {
        if self.query_port == 0 {
            Err(ConfigError::QueryPortZero)
        } else if ports.len() == 0 {
            Err(ConfigError::NoDataPorts)
        } else if Self::spec_port_fault(ports) is Some {
            Err(Self::spec_port_fault(ports)->0)
        } else if Self::spec_duplicate_names(ports) {
            Err(ConfigError::DuplicateDataPortName)
        } else if self.default_endpoint.resource_type@.len() == 0 {
            Err(ConfigError::ResourceTypeEmpty)
        } else if self.default_endpoint.namespace@.len() == 0 {
            Err(ConfigError::NamespaceEmpty)
        } else if self.resource_query_mapping@.len() == 0 {
            Err(ConfigError::NoResourceMapping)
        } else if spec_hex_decode(self.control_packet_magic_bytes@) is None {
            Err(ConfigError::InvalidMagicBytes)
        } else {
            Ok(())
        }
    }

    /// Validate the configuration: a non-zero query port; at least one data
    /// port, each non-zero and named, the names distinct; a default endpoint
    /// with resource type and namespace; at least one resource mapping; and a
    /// control packet prefix in hexadecimal. The first fault in this order is
    /// reported.
    pub fn validate(&self) -> (r: Result<(), ConfigError>)
        ensures
            exists|ports: Seq<DataPortConfig>|
                self.spec_data_ports(ports) && r == self.spec_validate(ports),
    {
        let ports = self.get_data_ports();
        let r = self.validate_with(&ports);
        r
    }

    /// Validation, given the data ports of this configuration.
    fn validate_with(&self, ports: &Vec<DataPortConfig>) -> (r: Result<(), ConfigError>)
        ensures
            r == self.spec_validate(ports@),
    {
        if self.query_port == 0 {
            return Err(ConfigError::QueryPortZero);
        }
        if ports.len() == 0 {
            return Err(ConfigError::NoDataPorts);
        }
        let mut i: usize = 0;
        assert(ports@.skip(0) =~= ports@);
        while i < ports.len()
            invariant
                i <= ports.len(),
                self.query_port != 0,
                ports.len() > 0,
                Self::spec_port_fault(ports@) == Self::spec_port_fault(ports@.skip(i as int)),
            decreases ports.len() - i,
        {
            if ports[i].port == 0 {
                return Err(ConfigError::DataPortZero);
            }
            if ports[i].name.as_str().is_empty() {
                return Err(ConfigError::DataPortNameEmpty);
            }
            assert(ports@.skip(i as int).skip(1) =~= ports@.skip(i + 1));
            i += 1;
        }
        let mut a: usize = 0;
        while a < ports.len()
            invariant
                a <= ports.len(),
                self.query_port != 0,
                ports.len() > 0,
                Self::spec_port_fault(ports@) is None,
                forall|i: int, j: int|
                    0 <= i < j < ports.len() && i < a ==> (#[trigger] ports@[i]).name@ != (
                    #[trigger] ports@[j]).name@,
            decreases ports.len() - a,
        {
            let mut b: usize = a + 1;
            while b < ports.len()
                invariant
                    a < b <= ports.len(),
                    self.query_port != 0,
                    ports.len() > 0,
                    Self::spec_port_fault(ports@) is None,
                    forall|j: int| a < j < b ==> ports@[a as int].name@ != (#[trigger] ports@[j]).name@,
                decreases ports.len() - b,
            {
                if ports[a].name == ports[b].name {
                    return Err(ConfigError::DuplicateDataPortName);
                }
                b += 1;
            }
            a += 1;
        }
        if self.default_endpoint.resource_type.as_str().is_empty() {
            return Err(ConfigError::ResourceTypeEmpty);
        }
        if self.default_endpoint.namespace.as_str().is_empty() {
            return Err(ConfigError::NamespaceEmpty);
        }
        if self.resource_query_mapping.len() == 0 {
            return Err(ConfigError::NoResourceMapping);
        }
        match hex_decode(self.control_packet_magic_bytes.as_str()) {
            Ok(_) => Ok(()),
            Err(_) => Err(ConfigError::InvalidMagicBytes),
        }
    }

    /// Get the decoded control packet prefix.
    pub fn get_magic_bytes(&self) -> (r: Result<Vec<u8>, ConfigError>)
        ensures
            match r {
                Ok(bytes) => spec_hex_decode(self.control_packet_magic_bytes@) == Some(bytes@),
                Err(e) => e == ConfigError::InvalidMagicBytes && spec_hex_decode(
                    self.control_packet_magic_bytes@,
                ) is None,
            },
    {
        match hex_decode(self.control_packet_magic_bytes.as_str()) {
            Ok(bytes) => Ok(bytes),
            Err(_) => Err(ConfigError::InvalidMagicBytes),
        }
    }
}

} // verus!
