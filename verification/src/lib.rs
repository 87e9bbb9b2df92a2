//! A session director for datagram and stream traffic: the routing state and
//! the decisions of the data plane, stated and proved over plain values.

pub mod config;
pub mod json;
pub mod k8s_client;
pub mod laws;
pub mod load_balancer;
pub mod maps;
pub mod metrics;
pub mod metrics_server;
pub mod port_map;
pub mod proxy;
pub mod query_server;
pub mod resource_monitor;
pub mod session;
pub mod text;
pub mod token_cache;
