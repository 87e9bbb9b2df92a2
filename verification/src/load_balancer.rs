//! The backend selector: the strategies that pick one backend among the
//! candidates, and the per-address session counts they consult.

use vstd::prelude::*;
use dashmap::DashMap;
use crate::k8s_client::{deref_all, spec_extract_address, K8sClient, Resource};
use crate::maps::{
    counts_entries, counts_get, counts_insert, counts_new, counts_remove, session_counts,
};
use crate::text::{lookup, opt_str_view, parse_i64, spec_lookup, spec_parse_i64};

verus! {

/// How a backend is chosen among the candidates.
#[derive(Debug)]
pub enum LoadBalancingStrategy {
    /// Route to the backend with the fewest active sessions.
    LeastSessions,
    /// Route by capacity computed from labels on the resource.
    LabelArithmetic {
        /// Label that holds the current user count (for example `currentUsers`).
        current_label: String,
        /// Label that holds the maximum user count (for example `maxUsers`).
        max_label: String,
        /// Capacity held back for other instances of the director.
        overlap: i64,
    },
}

impl Clone for LoadBalancingStrategy {
    fn clone(&self) -> (r: Self)
        ensures
            r == *self,
    {
        match self {
            LoadBalancingStrategy::LeastSessions => LoadBalancingStrategy::LeastSessions,
            LoadBalancingStrategy::LabelArithmetic { current_label, max_label, overlap } => {
                LoadBalancingStrategy::LabelArithmetic {
                    current_label: current_label.clone(),
                    max_label: max_label.clone(),
                    overlap: *overlap,
                }
            },
        }
    }
}

impl Default for LoadBalancingStrategy {
    fn default() -> (r: Self)
        ensures
            r is LeastSessions,
    {
        LoadBalancingStrategy::LeastSessions
    }
}

/// Load balancing configuration.
#[derive(Debug, Clone)]
pub struct LoadBalancingConfig {
    /// Load balancing strategy to use.
    pub strategy: LoadBalancingStrategy,
}

impl Default for LoadBalancingConfig {
    fn default() -> (r: Self)
        ensures
            r.strategy is LeastSessions,
    {
        LoadBalancingConfig { strategy: LoadBalancingStrategy::LeastSessions }
    }
}

/// Backend resource information.
#[derive(Debug, Clone)]
pub struct Backend {
    /// Resource name.
    pub name: String,
    /// Resource address.
    pub address: String,
    /// Number of active sessions to this backend.
    pub session_count: usize,
    /// Resource labels for label-based load balancing.
    pub labels: Vec<(String, String)>,
}

/// Why no backend was selected.
#[derive(Debug, Clone, Copy, PartialEq, Eq, Structural)]
pub enum SelectError {
    /// There are no candidates.
    NoCandidates,
    /// No candidate has an address.
    NoValidBackends,
    /// No candidate has capacity left.
    NoCapacity,
}

impl SelectError {
    /// The message for this error.
    pub open spec fn spec_message(self) -> Seq<char> {
        match self {
            SelectError::NoCandidates => "No resources available for load balancing"@,
            SelectError::NoValidBackends => "No valid backends found after address extraction"@,
            SelectError::NoCapacity => "No backends available with capacity"@,
        }
    }

    /// The message for this error.
    pub fn message(&self) -> (r: &'static str)
        ensures
            r@ == self.spec_message(),
    {
        match self {
            SelectError::NoCandidates => "No resources available for load balancing",
            SelectError::NoValidBackends => "No valid backends found after address extraction",
            SelectError::NoCapacity => "No backends available with capacity",
        }
    }
}

/// The count kept for `address`, zero where none is kept.
pub open spec fn spec_count(counts: Map<Seq<char>, usize>, address: Seq<char>) -> nat {
    if counts.contains_key(address) {
        counts[address] as nat
    } else {
        0
    }
}

/// The sum of all counts.
pub open spec fn spec_total(counts: Map<Seq<char>, usize>) -> nat
    decreases counts.dom().len(),
    when counts.dom().finite()
{
    if counts.dom().len() == 0 {
        0
    } else {
        let k = counts.dom().choose();
        counts[k] as nat + spec_total(counts.remove(k))
    }
}

/// The sum of the counts of a listing.
pub open spec fn spec_listing_sum(entries: Seq<(String, usize)>) -> nat
    decreases entries.len(),
{
    if entries.len() == 0 {
        0
    } else {
        spec_listing_sum(entries.drop_last()) + entries.last().1 as nat
    }
}

/// Whether `entries` lists the counts: each address that has a count once, with its count.
pub open spec fn is_listing(counts: Map<Seq<char>, usize>, entries: Seq<(String, usize)>) -> bool {
    &&& forall|i: int, j: int|
        0 <= i < j < entries.len() ==> (#[trigger] entries[i]).0@ != (#[trigger] entries[j]).0@
    &&& forall|i: int|
        0 <= i < entries.len() ==> counts.contains_key((#[trigger] entries[i]).0@)
            && counts[entries[i].0@] == entries[i].1
    &&& forall|k: Seq<char>|
        counts.contains_key(k) ==> exists|i: int|
            0 <= i < entries.len() && (#[trigger] entries[i]).0@ == k
}

/// The sum of a listing is the count at a position and the sum of the rest.
pub proof fn lemma_listing_sum_remove(entries: Seq<(String, usize)>, p: int)
    requires
        0 <= p < entries.len(),
    ensures
        spec_listing_sum(entries) == entries[p].1 + spec_listing_sum(entries.remove(p)),
    decreases entries.len(),
{
    let last = entries.len() - 1;
    if p == last {
        assert(entries.remove(p) =~= entries.drop_last());
    } else {
        lemma_listing_sum_remove(entries.drop_last(), p);
        assert(entries.remove(p).drop_last() =~= entries.drop_last().remove(p));
        assert(entries.remove(p).last() == entries.last());
    }
}

/// Every listing of the counts has the sum of all counts.
pub proof fn lemma_listing_total(counts: Map<Seq<char>, usize>, entries: Seq<(String, usize)>)
    requires
        is_listing(counts, entries),
    ensures
        counts.dom().finite(),
        counts.dom().len() == entries.len(),
        spec_total(counts) == spec_listing_sum(entries),
    decreases entries.len(),
{
    if entries.len() == 0 {
        assert(counts.dom() =~= Set::<Seq<char>>::empty()) by {
            assert forall|k: Seq<char>| !counts.dom().contains(k) by {
                if counts.contains_key(k) {
                    let i = choose|i: int| 0 <= i < entries.len() && (#[trigger] entries[i]).0@ == k;
                }
            }
        }
    } else {
        // any key will do to take one entry away
        let k0 = entries[0].0@;
        assert(counts.contains_key(k0));
        let rest0 = entries.remove(0);
        lemma_listing_without(counts, entries, 0);
        lemma_listing_total(counts.remove(k0), rest0);
        assert(counts.dom() =~= counts.remove(k0).dom().insert(k0));
        // now the key that the sum takes first
        let k = counts.dom().choose();
        assert(counts.dom().contains(k0));
        assert(counts.dom().contains(k));
        let p = choose|p: int| 0 <= p < entries.len() && (#[trigger] entries[p]).0@ == k;
        lemma_listing_without(counts, entries, p);
        lemma_listing_total(counts.remove(k), entries.remove(p));
        lemma_listing_sum_remove(entries, p);
    }
}

/// A listing without one entry lists the counts without that entry's address.
pub proof fn lemma_listing_without(
    counts: Map<Seq<char>, usize>,
    entries: Seq<(String, usize)>,
    p: int,
)
    requires
        is_listing(counts, entries),
        0 <= p < entries.len(),
    ensures
        is_listing(counts.remove(entries[p].0@), entries.remove(p)),
{
    let k = entries[p].0@;
    let rest = entries.remove(p);
    let m = counts.remove(k);
    assert forall|i: int, j: int| 0 <= i < j < rest.len() implies (#[trigger] rest[i]).0@ != (
    #[trigger] rest[j]).0@ by {
        let a = if i < p {
            i
        } else {
            i + 1
        };
        let b = if j < p {
            j
        } else {
            j + 1
        };
        assert(rest[i] == entries[a]);
        assert(rest[j] == entries[b]);
        assert(entries[a].0@ != entries[b].0@);
    }
    assert forall|i: int| 0 <= i < rest.len() implies m.contains_key((#[trigger] rest[i]).0@)
        && m[rest[i].0@] == rest[i].1 by {
        let a = if i < p {
            i
        } else {
            i + 1
        };
        assert(rest[i] == entries[a]);
        if a < p {
            assert(entries[a].0@ != entries[p].0@);
        } else {
            assert(entries[p].0@ != entries[a].0@);
        }
        assert(counts.contains_key(entries[a].0@));
    }
    assert forall|key: Seq<char>| m.contains_key(key) implies exists|i: int|
        0 <= i < rest.len() && (#[trigger] rest[i]).0@ == key by {
        assert(counts.contains_key(key));
        let a = choose|a: int| 0 <= a < entries.len() && (#[trigger] entries[a]).0@ == key;
        assert(a != p);
        let i = if a < p {
            a
        } else {
            a - 1
        };
        assert(rest[i] == entries[a]);
    }
}

/// The address of a candidate, where one can be read.
pub open spec fn spec_address(
    resource: Resource,
    address_path: Seq<char>,
    address_type: Option<Seq<char>>,
) -> Option<Seq<char>> {
    match spec_extract_address(resource.document, address_path, address_type) {
        Ok(a) => Some(a),
        Err(_) => None,
    }
}

/// The number of sessions of a candidate that has an address.
pub open spec fn spec_sessions(
    counts: Map<Seq<char>, usize>,
    resource: Resource,
    address_path: Seq<char>,
    address_type: Option<Seq<char>>,
) -> Option<nat> {
    match spec_address(resource, address_path, address_type) {
        Some(a) => Some(spec_count(counts, a)),
        None => None,
    }
}

/// Whether candidate `i` is the choice of the least-sessions strategy: it
/// has an address, no candidate with an address has fewer sessions, and every
/// such candidate before it has more.
pub open spec fn is_least(
    counts: Map<Seq<char>, usize>,
    resources: Seq<Resource>,
    address_path: Seq<char>,
    address_type: Option<Seq<char>>,
    i: int,
) -> bool {
    &&& 0 <= i < resources.len()
    &&& spec_sessions(counts, resources[i], address_path, address_type) is Some
    &&& forall|j: int|
        0 <= j < resources.len() ==> (#[trigger] spec_sessions(
            counts,
            resources[j],
            address_path,
            address_type,
        ) matches Some(c) ==> spec_sessions(counts, resources[i], address_path, address_type)->0
            <= c)
    &&& forall|j: int|
        0 <= j < i ==> (#[trigger] spec_sessions(counts, resources[j], address_path, address_type)
            matches Some(c) ==> spec_sessions(counts, resources[i], address_path, address_type)->0
            < c)
}

/// The number in a label: zero or `fallback` where the label is missing,
/// nothing where it is no number.
pub open spec fn spec_label_number(
    labels: Option<Vec<(String, String)>>,
    label: Seq<char>,
    fallback: Option<i64>,
) -> Option<i64> {
    match labels {
        Some(held) => match spec_lookup(held@, label) {
            Some(text) => spec_parse_i64(text@),
            None => fallback,
        },
        None => fallback,
    }
}

/// The capacity of a candidate under the label-arithmetic strategy, as the
/// pair of what is available and the current load: available is the maximum
/// less the current load, the sessions counted for its address and the
/// overlap. A missing current label counts as zero. Nothing for a candidate
/// without address, without a number in the maximum label, with a current
/// label that is no number, or with nothing available.
pub open spec fn spec_capacity(
    counts: Map<Seq<char>, usize>,
    resource: Resource,
    address_path: Seq<char>,
    address_type: Option<Seq<char>>,
    current_label: Seq<char>,
    max_label: Seq<char>,
    overlap: i64,
) -> Option<(int, int)> {
    match spec_address(resource, address_path, address_type) {
        Some(address) => match (
            spec_label_number(resource.labels, current_label, Some(0i64)),
            spec_label_number(resource.labels, max_label, None),
        ) {
            (Some(current), Some(max)) => {
                let available = max - current - spec_count(counts, address) - overlap;
                if available > 0 {
                    Some((available, current as int))
                } else {
                    None
                }
            },
            _ => None,
        },
        None => None,
    }
}

/// What is available of a candidate that has capacity.
pub open spec fn spec_available(
    counts: Map<Seq<char>, usize>,
    resource: Resource,
    address_path: Seq<char>,
    address_type: Option<Seq<char>>,
    current_label: Seq<char>,
    max_label: Seq<char>,
    overlap: i64,
) -> Option<int> {
    match spec_capacity(
        counts,
        resource,
        address_path,
        address_type,
        current_label,
        max_label,
        overlap,
    ) {
        Some(c) => Some(c.0),
        None => None,
    }
}

/// Whether capacity `a` comes before capacity `b`: more available, or as
/// much available and a lower current load.
pub open spec fn comes_before(a: (int, int), b: (int, int)) -> bool {
    a.0 > b.0 || (a.0 == b.0 && a.1 < b.1)
}

/// Whether candidate `i` is the choice of the label-arithmetic strategy: it
/// has capacity, no candidate's capacity comes before its own, and its
/// capacity comes before that of every candidate before it.
pub open spec fn is_best(
    counts: Map<Seq<char>, usize>,
    resources: Seq<Resource>,
    address_path: Seq<char>,
    address_type: Option<Seq<char>>,
    current_label: Seq<char>,
    max_label: Seq<char>,
    overlap: i64,
    i: int,
) -> bool {
    &&& 0 <= i < resources.len()
    &&& spec_capacity(
        counts,
        resources[i],
        address_path,
        address_type,
        current_label,
        max_label,
        overlap,
    ) is Some
    &&& forall|j: int|
        0 <= j < resources.len() ==> (#[trigger] spec_capacity(
            counts,
            resources[j],
            address_path,
            address_type,
            current_label,
            max_label,
            overlap,
        ) matches Some(c) ==> !comes_before(
            c,
            spec_capacity(
                counts,
                resources[i],
                address_path,
                address_type,
                current_label,
                max_label,
                overlap,
            )->0,
        ))
    &&& forall|j: int|
        0 <= j < i ==> (#[trigger] spec_capacity(
            counts,
            resources[j],
            address_path,
            address_type,
            current_label,
            max_label,
            overlap,
        ) matches Some(c) ==> comes_before(
            spec_capacity(
                counts,
                resources[i],
                address_path,
                address_type,
                current_label,
                max_label,
                overlap,
            )->0,
            c,
        ))
}

/// Whether no candidate has an address.
pub open spec fn none_addressed(
    counts: Map<Seq<char>, usize>,
    resources: Seq<Resource>,
    address_path: Seq<char>,
    address_type: Option<Seq<char>>,
) -> bool {
    forall|j: int|
        0 <= j < resources.len() ==> (#[trigger] spec_sessions(
            counts,
            resources[j],
            address_path,
            address_type,
        )) is None
}

/// Whether no candidate has capacity.
pub open spec fn none_with_capacity(
    counts: Map<Seq<char>, usize>,
    resources: Seq<Resource>,
    address_path: Seq<char>,
    address_type: Option<Seq<char>>,
    current_label: Seq<char>,
    max_label: Seq<char>,
    overlap: i64,
) -> bool {
    forall|j: int|
        0 <= j < resources.len() ==> (#[trigger] spec_capacity(
            counts,
            resources[j],
            address_path,
            address_type,
            current_label,
            max_label,
            overlap,
        )) is None
}

/// Load balancer for selecting backend resources.
pub struct LoadBalancer {
    /// Strategy to use for load balancing.
    strategy: LoadBalancingStrategy,
    /// Session count per backend address.
    session_counts: DashMap<String, usize>,
}

/// Reads the number in a label.
fn label_number(labels: &Option<Vec<(String, String)>>, label: &str, fallback: Option<i64>) -> (r:
    Option<i64>)
    ensures
        r == spec_label_number(*labels, label@, fallback),
{
    match labels {
        Some(held) => match lookup(held, label) {
            Some(text) => parse_i64(text.as_str()),
            None => fallback,
        },
        None => fallback,
    }
}

impl LoadBalancer {
    /// The session counts: for each backend address that has one, its count.
    pub closed spec fn counts(&self) -> Map<Seq<char>, usize> {
        session_counts(self.session_counts)
    }

    /// The strategy of this load balancer.
    pub closed spec fn spec_strategy(&self) -> LoadBalancingStrategy {
        self.strategy
    }

    /// Create a new load balancer, with no sessions counted.
    pub fn new(strategy: LoadBalancingStrategy) -> (r: Self)
        ensures
            r.spec_strategy() == strategy,
            r.counts() == Map::<Seq<char>, usize>::empty(),
    {
        LoadBalancer { strategy, session_counts: counts_new() }
    }

    /// The strategy of this load balancer.
    pub fn strategy(&self) -> (r: &LoadBalancingStrategy)
        ensures
            *r == self.spec_strategy(),
    {
        &self.strategy
    }

    /// The sessions counted for a candidate, where it has an address.
    fn sessions_of(&self, resource: &Resource, address_path: &str, address_type: Option<&str>) -> (r:
        Option<usize>)
        ensures
            match r {
                Some(c) => spec_sessions(
                    self.counts(),
                    *resource,
                    address_path@,
                    opt_str_view(address_type),
                ) == Some(c as nat),
                None => spec_sessions(
                    self.counts(),
                    *resource,
                    address_path@,
                    opt_str_view(address_type),
                ) is None,
            },
    {
        let client = K8sClient::new();
        match client.extract_address(resource, address_path, address_type) {
            Ok(address) => match counts_get(&self.session_counts, address.as_str()) {
                Some(c) => Some(c),
                None => Some(0),
            },
            Err(_) => None,
        }
    }

    /// Select backend using the least sessions strategy: among the
    /// candidates that have an address, the one with the fewest sessions, and
    /// of several such the first.
    pub fn select_least_sessions<'a>(
        &self,
        resources: &Vec<&'a Resource>,
        address_path: &str,
        address_type: Option<&str>,
    ) -> (r: Result<&'a Resource, SelectError>)
        ensures
            match r {
                Ok(chosen) => exists|i: int|
                    #[trigger] is_least(
                        self.counts(),
                        deref_all(resources@),
                        address_path@,
                        opt_str_view(address_type),
                        i,
                    ) && *chosen == deref_all(resources@)[i],
                Err(e) => e == SelectError::NoValidBackends && none_addressed(
                    self.counts(),
                    deref_all(resources@),
                    address_path@,
                    opt_str_view(address_type),
                ),
            },
    {
        let ghost ty = opt_str_view(address_type);
        let mut best: Option<(usize, usize)> = None;
        let mut i: usize = 0;
        while i < resources.len()
            invariant
                i <= resources.len(),
                ty == opt_str_view(address_type),
                match best {
                    Some((b, count)) => {
                        &&& b < i
                        &&& spec_sessions(self.counts(), *resources@[b as int], address_path@, ty)
                            == Some(count as nat)
                        &&& forall|j: int|
                            0 <= j < i ==> (#[trigger] spec_sessions(
                                self.counts(),
                                *resources@[j],
                                address_path@,
                                ty,
                            ) matches Some(c) ==> count <= c)
                        &&& forall|j: int|
                            0 <= j < b ==> (#[trigger] spec_sessions(
                                self.counts(),
                                *resources@[j],
                                address_path@,
                                ty,
                            ) matches Some(c) ==> count < c)
                    },
                    None => forall|j: int|
                        0 <= j < i ==> (#[trigger] spec_sessions(
                            self.counts(),
                            *resources@[j],
                            address_path@,
                            ty,
                        )) is None,
                },
            decreases resources.len() - i,
        {
            if let Some(count) = self.sessions_of(resources[i], address_path, address_type) {
                match best {
                    Some((_, least)) => {
                        if count < least {
                            best = Some((i, count));
                        }
                    },
                    None => {
                        best = Some((i, count));
                    },
                }
            }
            i += 1;
        }
        match best {
            Some((b, _)) => {
                assert forall|j: int| 0 <= j < resources@.len() implies deref_all(resources@)[j]
                    == *resources@[j] by {}
                assert(is_least(self.counts(), deref_all(resources@), address_path@, ty, b as int));
                Ok(resources[b])
            },
            None => {
                assert forall|j: int| 0 <= j < resources@.len() implies deref_all(resources@)[j]
                    == *resources@[j] by {}
                Err(SelectError::NoValidBackends)
            },
        }
    }

    /// The capacity of a candidate under the label-arithmetic strategy.
    fn capacity_of(
        &self,
        resource: &Resource,
        address_path: &str,
        address_type: Option<&str>,
        current_label: &str,
        max_label: &str,
        overlap: i64,
    ) -> (r: Option<(i128, i64)>)
        ensures
            match r {
                Some((available, current)) => spec_capacity(
                    self.counts(),
                    *resource,
                    address_path@,
                    opt_str_view(address_type),
                    current_label@,
                    max_label@,
                    overlap,
                ) == Some((available as int, current as int)),
                None => spec_capacity(
                    self.counts(),
                    *resource,
                    address_path@,
                    opt_str_view(address_type),
                    current_label@,
                    max_label@,
                    overlap,
                ) is None,
            },
    {
        let client = K8sClient::new();
        let address = match client.extract_address(resource, address_path, address_type) {
            Ok(address) => address,
            Err(_) => {
                return None;
            },
        };
        let current = match label_number(&resource.labels, current_label, Some(0)) {
            Some(v) => v,
            None => {
                return None;
            },
        };
        let max = match label_number(&resource.labels, max_label, None) {
            Some(v) => v,
            None => {
                return None;
            },
        };
        let sessions: usize = match counts_get(&self.session_counts, address.as_str()) {
            Some(c) => c,
            None => 0,
        };
        let available: i128 = (max as i128) - (current as i128) - (sessions as i128) - (
        overlap as i128);
        if available > 0 {
            Some((available, current))
        } else {
            None
        }
    }

    /// Select backend using the label-arithmetic strategy: among the
    /// candidates with capacity, the one with the most available, of several
    /// such the one with the lowest current load, and of several such the first.
    pub fn select_label_arithmetic<'a>(
        &self,
        resources: &Vec<&'a Resource>,
        address_path: &str,
        address_type: Option<&str>,
        current_label: &str,
        max_label: &str,
        overlap: i64,
    ) -> (r: Result<&'a Resource, SelectError>)
        ensures
            match r {
                Ok(chosen) => exists|i: int|
                    #[trigger] is_best(
                        self.counts(),
                        deref_all(resources@),
                        address_path@,
                        opt_str_view(address_type),
                        current_label@,
                        max_label@,
                        overlap,
                        i,
                    ) && *chosen == deref_all(resources@)[i],
                Err(e) => e == SelectError::NoCapacity && none_with_capacity(
                    self.counts(),
                    deref_all(resources@),
                    address_path@,
                    opt_str_view(address_type),
                    current_label@,
                    max_label@,
                    overlap,
                ),
            },
    {
        let ghost ty = opt_str_view(address_type);
        let mut best: Option<(usize, i128, i64)> = None;
        let mut i: usize = 0;
        while i < resources.len()
            invariant
                i <= resources.len(),
                ty == opt_str_view(address_type),
                match best {
                    Some((b, available, current)) => {
                        &&& b < i
                        &&& spec_capacity(
                            self.counts(),
                            *resources@[b as int],
                            address_path@,
                            ty,
                            current_label@,
                            max_label@,
                            overlap,
                        ) == Some((available as int, current as int))
                        &&& forall|j: int|
                            0 <= j < i ==> (#[trigger] spec_capacity(
                                self.counts(),
                                *resources@[j],
                                address_path@,
                                ty,
                                current_label@,
                                max_label@,
                                overlap,
                            ) matches Some(c) ==> !comes_before(
                                c,
                                (available as int, current as int),
                            ))
                        &&& forall|j: int|
                            0 <= j < b ==> (#[trigger] spec_capacity(
                                self.counts(),
                                *resources@[j],
                                address_path@,
                                ty,
                                current_label@,
                                max_label@,
                                overlap,
                            ) matches Some(c) ==> comes_before(
                                (available as int, current as int),
                                c,
                            ))
                    },
                    None => forall|j: int|
                        0 <= j < i ==> (#[trigger] spec_capacity(
                            self.counts(),
                            *resources@[j],
                            address_path@,
                            ty,
                            current_label@,
                            max_label@,
                            overlap,
                        )) is None,
                },
            decreases resources.len() - i,
        {
            if let Some((available, current)) = self.capacity_of(
                resources[i],
                address_path,
                address_type,
                current_label,
                max_label,
                overlap,
            ) {
                match best {
                    Some((_, best_available, best_current)) => {
                        if available > best_available || (available == best_available && current
                            < best_current) {
                            best = Some((i, available, current));
                        }
                    },
                    None => {
                        best = Some((i, available, current));
                    },
                }
            }
            i += 1;
        }
        match best {
            Some((b, _, _)) => {
                assert forall|j: int| 0 <= j < resources@.len() implies deref_all(resources@)[j]
                    == *resources@[j] by {}
                assert(is_best(
                    self.counts(),
                    deref_all(resources@),
                    address_path@,
                    ty,
                    current_label@,
                    max_label@,
                    overlap,
                    b as int,
                ));
                Ok(resources[b])
            },
            None => {
                assert forall|j: int| 0 <= j < resources@.len() implies deref_all(resources@)[j]
                    == *resources@[j] by {}
                Err(SelectError::NoCapacity)
            },
        }
    }

    /// Whether candidate `i` is the choice of this load balancer's strategy.
    pub open spec fn selects(
        &self,
        resources: Seq<Resource>,
        address_path: Seq<char>,
        address_type: Option<Seq<char>>,
        i: int,
    ) -> bool {
        match self.spec_strategy() {
            LoadBalancingStrategy::LeastSessions => is_least(
                self.counts(),
                resources,
                address_path,
                address_type,
                i,
            ),
            LoadBalancingStrategy::LabelArithmetic { current_label, max_label, overlap } => is_best(
                self.counts(),
                resources,
                address_path,
                address_type,
                current_label@,
                max_label@,
                overlap,
                i,
            ),
        }
    }

    /// Whether this load balancer's strategy has no choice among the
    /// candidates, and `e` says why: there are none, or, by the strategy,
    /// none has an address or none has capacity.
    pub open spec fn refuses(
        &self,
        resources: Seq<Resource>,
        address_path: Seq<char>,
        address_type: Option<Seq<char>>,
        e: SelectError,
    ) -> bool {
        if resources.len() == 0 {
            e == SelectError::NoCandidates
        } else {
            match self.spec_strategy() {
                LoadBalancingStrategy::LeastSessions => e == SelectError::NoValidBackends
                    && none_addressed(self.counts(), resources, address_path, address_type),
                LoadBalancingStrategy::LabelArithmetic { current_label, max_label, overlap } => e
                    == SelectError::NoCapacity && none_with_capacity(
                    self.counts(),
                    resources,
                    address_path,
                    address_type,
                    current_label@,
                    max_label@,
                    overlap,
                ),
            }
        }
    }

    /// Select the best backend from a list of candidates, by the strategy
    /// of this load balancer. An empty list has no candidates.
    pub fn select_backend<'a>(
        &self,
        resources: &Vec<&'a Resource>,
        address_path: &str,
        address_type: Option<&str>,
    ) -> (r: Result<&'a Resource, SelectError>)
        ensures
            match r {
                Ok(chosen) => exists|i: int|
                    #[trigger] self.selects(
                        deref_all(resources@),
                        address_path@,
                        opt_str_view(address_type),
                        i,
                    ) && *chosen == deref_all(resources@)[i],
                Err(e) => self.refuses(
                    deref_all(resources@),
                    address_path@,
                    opt_str_view(address_type),
                    e,
                ),
            },
    {
        if resources.len() == 0 {
            return Err(SelectError::NoCandidates);
        }
        match &self.strategy {
            LoadBalancingStrategy::LeastSessions => {
                let r = self.select_least_sessions(resources, address_path, address_type);
                proof {
                    if let Ok(chosen) = r {
                        let i = choose|i: int|
                            #[trigger] is_least(
                                self.counts(),
                                deref_all(resources@),
                                address_path@,
                                opt_str_view(address_type),
                                i,
                            ) && *chosen == deref_all(resources@)[i];
                        assert(self.selects(
                            deref_all(resources@),
                            address_path@,
                            opt_str_view(address_type),
                            i,
                        ));
                    }
                }
                r
            },
            LoadBalancingStrategy::LabelArithmetic { current_label, max_label, overlap } => {
                let r = self.select_label_arithmetic(
                    resources,
                    address_path,
                    address_type,
                    current_label.as_str(),
                    max_label.as_str(),
                    *overlap,
                );
                proof {
                    if let Ok(chosen) = r {
                        let i = choose|i: int|
                            #[trigger] is_best(
                                self.counts(),
                                deref_all(resources@),
                                address_path@,
                                opt_str_view(address_type),
                                current_label@,
                                max_label@,
                                *overlap,
                                i,
                            ) && *chosen == deref_all(resources@)[i];
                        assert(self.selects(
                            deref_all(resources@),
                            address_path@,
                            opt_str_view(address_type),
                            i,
                        ));
                    }
                }
                r
            },
        }
    }

    /// Increment session count for a backend. A count at the machine's
    /// limit stays there.
    pub fn increment_session(&mut self, backend_address: &str)
        ensures
            final(self).spec_strategy() == old(self).spec_strategy(),
            final(self).counts() == old(self).counts().insert(
                backend_address@,
                if spec_count(old(self).counts(), backend_address@) < usize::MAX {
                    (spec_count(old(self).counts(), backend_address@) + 1) as usize
                } else {
                    usize::MAX
                },
            ),
    {
        let current: usize = match counts_get(&self.session_counts, backend_address) {
            Some(c) => c,
            None => 0,
        };
        let next: usize = if current < usize::MAX {
            current + 1
        } else {
            current
        };
        counts_insert(&mut self.session_counts, backend_address.to_owned(), next);
    }

    /// Decrement session count for a backend. An address without count, or
    /// with count zero, is left as it is.
    pub fn decrement_session(&mut self, backend_address: &str)
        ensures
            final(self).spec_strategy() == old(self).spec_strategy(),
            final(self).counts() == if spec_count(old(self).counts(), backend_address@) > 0 {
                old(self).counts().insert(
                    backend_address@,
                    (spec_count(old(self).counts(), backend_address@) - 1) as usize,
                )
            } else {
                old(self).counts()
            },
    {
        if let Some(c) = counts_get(&self.session_counts, backend_address) {
            if c > 0 {
                counts_insert(&mut self.session_counts, backend_address.to_owned(), c - 1);
            }
        }
    }

    /// Get session count for a backend: zero where none is kept.
    pub fn get_session_count(&self, backend_address: &str) -> (r: usize)
        ensures
            r == spec_count(self.counts(), backend_address@),
    {
        match counts_get(&self.session_counts, backend_address) {
            Some(c) => c,
            None => 0,
        }
    }

    /// Get total session count across all backends. A total beyond the
    /// machine's limit is reported as the limit.
    pub fn get_total_sessions(&self) -> (r: usize)
        ensures
            self.counts().dom().finite(),
            r == if spec_total(self.counts()) <= usize::MAX {
                spec_total(self.counts())
            } else {
                usize::MAX as nat
            },
    {
        let entries = counts_entries(&self.session_counts);
        proof {
            lemma_listing_total(self.counts(), entries@);
        }
        let mut total: usize = 0;
        let mut i: usize = 0;
        assert(entries@.take(0) =~= Seq::<(String, usize)>::empty());
        while i < entries.len()
            invariant
                i <= entries.len(),
                total == if spec_listing_sum(entries@.take(i as int)) <= usize::MAX {
                    spec_listing_sum(entries@.take(i as int))
                } else {
                    usize::MAX as nat
                },
            decreases entries.len() - i,
        {
            assert(entries@.take(i + 1).drop_last() =~= entries@.take(i as int));
            assert(entries@.take(i + 1).last() == entries@[i as int]);
            let count = entries[i].1;
            total = if count > usize::MAX - total {
                usize::MAX
            } else {
                total + count
            };
            i += 1;
        }
        assert(entries@.take(i as int) =~= entries@);
        total
    }

    /// Clear session count for a backend (used when the backend is removed).
    pub fn clear_backend(&mut self, backend_address: &str)
        ensures
            final(self).spec_strategy() == old(self).spec_strategy(),
            final(self).counts() == old(self).counts().remove(backend_address@),
    {
        counts_remove(&mut self.session_counts, backend_address);
    }

    /// Get all backend addresses and their session counts: each address
    /// that has a count once, in no particular order.
    pub fn get_all_session_counts(&self) -> (r: Vec<(String, usize)>)
        ensures
            is_listing(self.counts(), r@),
    {
        counts_entries(&self.session_counts)
    }
}

} // verus!
