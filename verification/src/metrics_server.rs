//! The routes of the metrics endpoint.

use vstd::prelude::*;

verus! {

/// What a request to the metrics endpoint is answered with.
#[derive(Debug, Clone, Copy, PartialEq, Eq, Structural)]
pub enum MetricsRoute {
    /// The metrics in text format.
    Metrics,
    /// The health probe.
    Health,
    /// Nothing is served at the path.
    NotFound,
}

/// The route of a path: `/metrics`, `/health`, or nothing.
pub open spec fn spec_route(path: Seq<char>) -> MetricsRoute {
    if path == "/metrics"@ {
        MetricsRoute::Metrics
    } else if path == "/health"@ {
        MetricsRoute::Health
    } else {
        MetricsRoute::NotFound
    }
}

impl MetricsRoute {
    /// The status code of the answer.
    pub fn status(&self) -> (r: u16)
        ensures
            r == if *self is NotFound {
                404u16
            } else {
                200u16
            },
    {
        match self {
            MetricsRoute::Metrics => 200,
            MetricsRoute::Health => 200,
            MetricsRoute::NotFound => 404,
        }
    }
}

/// Handle a request to the metrics endpoint: the route of its path.
pub fn handle_request(path: &str) -> (r: MetricsRoute)
    ensures
        r == spec_route(path@),
{
    if *path == *"/metrics" {
        MetricsRoute::Metrics
    } else if *path == *"/health" {
        MetricsRoute::Health
    } else {
        MetricsRoute::NotFound
    }
}

} // verus!
