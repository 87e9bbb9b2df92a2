//! The resource monitor's decisions: whether the default endpoint has
//! changed since the last look, so that the cached one is to be dropped.

use vstd::prelude::*;
use vstd::string::StringExecFns;
use crate::config::{Config, ResourceMapping};
use crate::k8s_client::{
    deref_all, spec_extract_address, spec_extract_port, spec_kept, K8sClient, Resource,
};
use crate::proxy::{annotations_of, status_filter_of, DefaultEndpointCacheHandle, EndpointView};
use crate::query_server::{resource_name, spec_resource_name};
use crate::text::{decimal_text, opt_as_str, opt_string_view, spec_lookup, u64_to_decimal};

verus! {

/// What a look at the default endpoint found.
#[derive(Debug, Clone, Copy, PartialEq, Eq, Structural)]
pub enum MonitorChange {
    /// The default endpoint's resource type has no mapping: nothing was compared.
    Skipped,
    /// There was no candidate, and there is none.
    StillAbsent,
    /// There was a candidate, and there is none.
    Lost,
    /// There was no candidate, and there is one.
    Found,
    /// There is another candidate than there was.
    Changed,
    /// There is the same candidate as there was.
    Unchanged,
}

/// The description of a candidate: its name, followed by its address and
/// port in the form `name (address:port)` where both can be read.
pub open spec fn spec_describe(resource: Resource, mapping: ResourceMapping) -> Seq<char> {
    let name = spec_resource_name(resource);
    match mapping.address_path {
        Some(path) => match spec_extract_address(
            resource.document,
            path@,
            opt_string_view(mapping.address_type),
        ) {
            Ok(address) => match spec_extract_port(
                resource.document,
                opt_string_view(mapping.port_path),
                opt_string_view(mapping.port_name),
            ) {
                Ok(port) => name + " ("@ + address + ":"@ + decimal_text(port as nat) + ")"@,
                Err(_) => name,
            },
            Err(_) => name,
        },
        None => name,
    }
}

/// The description of the current default endpoint: that of the first
/// candidate among the resources listed, nothing where there is none.
pub open spec fn spec_current(config: Config, mapping: ResourceMapping, listed: Seq<Resource>) -> Option<
    Seq<char>,
> {
    let candidates = spec_kept(
        listed,
        status_filter_of(config.default_endpoint.status_query),
        annotations_of(config.default_endpoint.annotation_selector),
    );
    if candidates.len() == 0 {
        None
    } else {
        Some(spec_describe(candidates[0], mapping))
    }
}

/// What the comparison of the remembered description with the current one finds.
pub open spec fn spec_change(last: Option<Seq<char>>, current: Option<Seq<char>>) -> MonitorChange {
    match (last, current) {
        (None, None) => MonitorChange::StillAbsent,
        (Some(_), None) => MonitorChange::Lost,
        (None, Some(_)) => MonitorChange::Found,
        (Some(l), Some(c)) => if l == c {
            MonitorChange::Unchanged
        } else {
            MonitorChange::Changed
        },
    }
}

/// Whether a finding drops the cached default endpoint.
pub open spec fn invalidates(change: MonitorChange) -> bool {
    change is Lost || change is Found || change is Changed
}

/// Describes a candidate.
pub fn describe(resource: &Resource, mapping: &ResourceMapping) -> (r: String)
    ensures
        r@ == spec_describe(*resource, *mapping),
{
    let client = K8sClient::new();
    let name = resource_name(resource);
    let path = match &mapping.address_path {
        Some(path) => path,
        None => {
            return name;
        },
    };
    let address = match client.extract_address(
        resource,
        path.as_str(),
        opt_as_str(&mapping.address_type),
    ) {
        Ok(address) => address,
        Err(_) => {
            return name;
        },
    };
    let port = match client.extract_port(
        resource,
        opt_as_str(&mapping.port_path),
        opt_as_str(&mapping.port_name),
    ) {
        Ok(port) => port,
        Err(_) => {
            return name;
        },
    };
    let mut text = name;
    text.append(" (");
    text.append(address.as_str());
    text.append(":");
    let digits = u64_to_decimal(port as u64);
    text.append(digits.as_str());
    text.append(")");
    text
}

/// Resource monitor: remembers the default endpoint it saw last.
pub struct ResourceMonitor {
    pub config: Config,
    pub check_interval_seconds: u64,
    /// The description of the default endpoint that was seen last.
    pub last_default_endpoint: Option<String>,
}

impl ResourceMonitor {
    /// The description of the default endpoint that was seen last.
    pub open spec fn last(&self) -> Option<Seq<char>> {
        opt_string_view(self.last_default_endpoint)
    }

    /// Create a new resource monitor, which has seen no default endpoint.
    pub fn new(config: Config, check_interval_seconds: u64) -> (r: Self)
        ensures
            r.config == config,
            r.check_interval_seconds == check_interval_seconds,
            r.last() is None,
    {
        ResourceMonitor { config, check_interval_seconds, last_default_endpoint: None }
    }

    /// Check the default endpoint against the resources that the
    /// orchestrator listed for it. The first candidate is described and
    /// compared with what was seen last. If a candidate appeared,
    /// disappeared or gave way to another, the cached default endpoint is
    /// dropped and the new description remembered.
    pub fn check_default_endpoint(
        &mut self,
        listed: &Vec<Resource>,
        cache: &mut DefaultEndpointCacheHandle,
    ) -> (r: MonitorChange)
        ensures
            final(self).config == old(self).config,
            final(self).check_interval_seconds == old(self).check_interval_seconds,
            match spec_lookup(
                old(self).config.resource_query_mapping@,
                old(self).config.default_endpoint.resource_type@,
            ) {
                None => {
                    &&& r == MonitorChange::Skipped
                    &&& final(self).last() == old(self).last()
                    &&& final(cache).cached() == old(cache).cached()
                },
                Some(mapping) => {
                    let current = spec_current(old(self).config, mapping, listed@);
                    &&& r == spec_change(old(self).last(), current)
                    &&& final(self).last() == current
                    &&& final(cache).cached() == if invalidates(r) {
                        None::<EndpointView>
                    } else {
                        old(cache).cached()
                    }
                },
            },
    {
        let default_endpoint = self.config.get_default_endpoint();
        let mapping = match self.config.find_mapping(default_endpoint.resource_type.as_str()) {
            Some(mapping) => mapping,
            None => {
                return MonitorChange::Skipped;
            },
        };
        let status: Option<(&str, &Vec<String>)> = match &default_endpoint.status_query {
            Some(q) => Some((q.json_path.as_str(), &q.expected_values)),
            None => None,
        };
        let selector: Option<&Vec<(String, String)>> = match &default_endpoint.annotation_selector {
            Some(entries) => Some(entries),
            None => None,
        };
        let client = K8sClient::new();
        let candidates = client.query_resources(listed, status, selector);
        let current: Option<String> = if candidates.len() == 0 {
            None
        } else {
            assert(deref_all(candidates@)[0] == *candidates@[0]);
            Some(describe(candidates[0], mapping))
        };
        let change = match (&self.last_default_endpoint, &current) {
            (None, None) => MonitorChange::StillAbsent,
            (Some(_), None) => MonitorChange::Lost,
            (None, Some(_)) => MonitorChange::Found,
            (Some(last), Some(now)) => if *last == *now {
                MonitorChange::Unchanged
            } else {
                MonitorChange::Changed
            },
        };
        match change {
            MonitorChange::Lost | MonitorChange::Found | MonitorChange::Changed => {
                cache.invalidate();
                self.last_default_endpoint = current;
            },
            _ => {},
        }
        change
    }
}

} // verus!
