//! Counters and gauges of the director, as plain numbers.

use vstd::prelude::*;

verus! {

/// A counter for each value of a label.
pub struct LabelledCounter {
    /// The counts, one entry for a label; a label is looked up as its first entry.
    pub entries: Vec<(String, u64)>,
}

/// A gauge for each pair of label values.
pub struct PairGauge {
    /// The values; a pair of labels is looked up as its first entry.
    pub entries: Vec<(String, String, i64)>,
}

/// A counter for each pair of label values.
pub struct PairCounter {
    /// The counts; a pair of labels is looked up as its first entry.
    pub entries: Vec<(String, String, u64)>,
}

/// The sum of two counts, as a 64-bit counter holds it: it starts over beyond its range.
pub open spec fn counter_sum(a: u64, b: u64) -> u64 {
    if a + b > u64::MAX {
        (a + b - u64::MAX - 1) as u64
    } else {
        (a + b) as u64
    }
}

/// The successor or predecessor of a gauge, as a signed 64-bit gauge holds it.
pub open spec fn gauge_step(a: i64, up: bool) -> i64 {
    if up {
        if a == i64::MAX {
            i64::MIN
        } else {
            (a + 1) as i64
        }
    } else {
        if a == i64::MIN {
            i64::MAX
        } else {
            (a - 1) as i64
        }
    }
}

/// The count kept for a label, zero where none is kept.
pub open spec fn spec_counter(entries: Seq<(String, u64)>, label: Seq<char>) -> u64
    decreases entries.len(),
{
    if entries.len() == 0 {
        0
    } else if entries[0].0@ == label {
        entries[0].1
    } else {
        spec_counter(entries.skip(1), label)
    }
}

/// The count kept for a pair of labels, zero where none is kept.
pub open spec fn spec_pair_counter(
    entries: Seq<(String, String, u64)>,
    a: Seq<char>,
    b: Seq<char>,
) -> u64
    decreases entries.len(),
{
    if entries.len() == 0 {
        0
    } else if entries[0].0@ == a && entries[0].1@ == b {
        entries[0].2
    } else {
        spec_pair_counter(entries.skip(1), a, b)
    }
}

/// The value kept for a pair of labels, if one is kept.
pub open spec fn spec_pair_gauge(
    entries: Seq<(String, String, i64)>,
    a: Seq<char>,
    b: Seq<char>,
) -> Option<i64>
    decreases entries.len(),
{
    if entries.len() == 0 {
        None
    } else if entries[0].0@ == a && entries[0].1@ == b {
        Some(entries[0].2)
    } else {
        spec_pair_gauge(entries.skip(1), a, b)
    }
}

/// Replacing the first entry for a label, or adding one, changes that label's count only.
proof fn lemma_counter_set(
    entries: Seq<(String, u64)>,
    after: Seq<(String, u64)>,
    label: Seq<char>,
    value: u64,
    i: int,
    other: Seq<char>,
)
    requires
        0 <= i <= entries.len(),
        forall|j: int| 0 <= j < i ==> (#[trigger] entries[j]).0@ != label,
        i < entries.len() ==> entries[i].0@ == label && after.len() == entries.len(),
        i == entries.len() ==> after.len() == entries.len() + 1,
        after[i].0@ == label && after[i].1 == value,
        forall|j: int| 0 <= j < entries.len() && j != i ==> #[trigger] after[j] == entries[j],
    ensures
        spec_counter(after, other) == if other == label {
            value
        } else {
            spec_counter(entries, other)
        },
    decreases entries.len(),
{
    if i == 0 {
        if entries.len() == 0 {
            assert(after.skip(1).len() == 0);
            assert(spec_counter(after.skip(1), other) == 0);
        } else {
            assert(after.skip(1) =~= entries.skip(1));
        }
    } else {
        let rest = entries.skip(1);
        let rest_after = after.skip(1);
        assert forall|j: int| 0 <= j < i - 1 implies (#[trigger] rest[j]).0@ != label by {
            assert(rest[j] == entries[j + 1]);
        }
        assert forall|j: int| 0 <= j < rest.len() && j != i - 1 implies #[trigger] rest_after[j]
            == rest[j] by {
            assert(after[j + 1] == entries[j + 1]);
        }
        assert(rest_after[i - 1] == after[i]);
        if i < entries.len() {
            assert(rest[i - 1] == entries[i]);
        }
        lemma_counter_set(rest, rest_after, label, value, i - 1, other);
        assert(after[0] == entries[0]);
        assert(entries[0].0@ != label);
    }
}

impl LabelledCounter {
    /// A counter that has counted nothing.
    pub fn new() -> (r: Self)
        ensures
            r.entries@ == Seq::<(String, u64)>::empty(),
    {
        LabelledCounter { entries: Vec::new() }
    }

    /// The count for a label.
    pub fn get(&self, label: &str) -> (r: u64)
        ensures
            r == spec_counter(self.entries@, label@),
    {
        let mut i: usize = 0;
        assert(self.entries@.skip(0) =~= self.entries@);
        while i < self.entries.len()
            invariant
                i <= self.entries.len(),
                spec_counter(self.entries@, label@) == spec_counter(
                    self.entries@.skip(i as int),
                    label@,
                ),
            decreases self.entries.len() - i,
        {
            assert(self.entries@.skip(i as int).skip(1) =~= self.entries@.skip(i + 1));
            if *self.entries[i].0.as_str() == *label {
                return self.entries[i].1;
            }
            i += 1;
        }
        0
    }

    /// Adds `by` to the count for a label; the other labels keep their counts.
    pub fn add(&mut self, label: &str, by: u64)
        ensures
            spec_counter(final(self).entries@, label@) == counter_sum(
                spec_counter(old(self).entries@, label@),
                by,
            ),
            forall|other: Seq<char>|
                other != label@ ==> #[trigger] spec_counter(final(self).entries@, other)
                    == spec_counter(old(self).entries@, other),
    {
        let current = self.get(label);
        let next = current.wrapping_add(by);
        let ghost before = self.entries@;
        let mut i: usize = 0;
        while i < self.entries.len()
            invariant
                i <= self.entries.len(),
                *self == *old(self),
                before == self.entries@,
                next == counter_sum(spec_counter(before, label@), by),
                forall|j: int| 0 <= j < i ==> (#[trigger] self.entries@[j]).0@ != label@,
            decreases self.entries.len() - i,
        {
            if *self.entries[i].0.as_str() == *label {
                let name = self.entries[i].0.clone();
                self.entries.set(i, (name, next));
                proof {
                    let after = self.entries@;
                    assert forall|other: Seq<char>| #[trigger]
                        spec_counter(after, other) == if other == label@ {
                            next
                        } else {
                            spec_counter(before, other)
                        } by {
                        lemma_counter_set(before, after, label@, next, i as int, other);
                    }
                }
                return ;
            }
            i += 1;
        }
        self.entries.push((label.to_owned(), next));
        proof {
            let after = self.entries@;
            assert forall|other: Seq<char>| #[trigger]
                spec_counter(after, other) == if other == label@ {
                    next
                } else {
                    spec_counter(before, other)
                } by {
                lemma_counter_set(before, after, label@, next, i as int, other);
            }
        }
    }
}

/// The counters and gauges of the director.
pub struct Metrics {
    /// Number of active sessions.
    pub active_sessions: i64,
    /// Sessions created, by session type.
    pub total_sessions: LabelledCounter,
    /// Packets received, by source.
    pub packets_received: LabelledCounter,
    /// Packets sent, by destination.
    pub packets_sent: LabelledCounter,
    /// Bytes received, by source.
    pub bytes_received: LabelledCounter,
    /// Bytes sent, by destination.
    pub bytes_sent: LabelledCounter,
    /// Token cache lookups, by result (`hit` or `miss`).
    pub token_cache_hits: LabelledCounter,
    /// Errors, by error type and component.
    pub errors: PairCounter,
    /// Whether a default endpoint is available (1) or not (0).
    pub default_endpoint_available: i64,
    /// Number of available resources, by resource type and namespace.
    pub available_resources: PairGauge,
}

impl Metrics {
    /// Metrics that have recorded nothing.
    pub fn new() -> (r: Self)
        ensures
            r.active_sessions == 0,
            r.default_endpoint_available == 0,
            r.total_sessions.entries@.len() == 0,
            r.packets_received.entries@.len() == 0,
            r.packets_sent.entries@.len() == 0,
            r.bytes_received.entries@.len() == 0,
            r.bytes_sent.entries@.len() == 0,
            r.token_cache_hits.entries@.len() == 0,
            r.errors.entries@.len() == 0,
            r.available_resources.entries@.len() == 0,
    {
        Metrics {
            active_sessions: 0,
            total_sessions: LabelledCounter::new(),
            packets_received: LabelledCounter::new(),
            packets_sent: LabelledCounter::new(),
            bytes_received: LabelledCounter::new(),
            bytes_sent: LabelledCounter::new(),
            token_cache_hits: LabelledCounter::new(),
            errors: PairCounter { entries: Vec::new() },
            default_endpoint_available: 0,
            available_resources: PairGauge { entries: Vec::new() },
        }
    }
}

/// Record a new session: one more session of its type, one more active session.
pub fn record_session_start(metrics: &mut Metrics, session_type: &str)
    ensures
        final(metrics).active_sessions == gauge_step(old(metrics).active_sessions, true),
        spec_counter(final(metrics).total_sessions.entries@, session_type@) == counter_sum(
            spec_counter(old(metrics).total_sessions.entries@, session_type@),
            1,
        ),
        forall|other: Seq<char>|
            other != session_type@ ==> #[trigger] spec_counter(
                final(metrics).total_sessions.entries@,
                other,
            ) == spec_counter(old(metrics).total_sessions.entries@, other),
        final(metrics).packets_received == old(metrics).packets_received,
        final(metrics).packets_sent == old(metrics).packets_sent,
        final(metrics).bytes_received == old(metrics).bytes_received,
        final(metrics).bytes_sent == old(metrics).bytes_sent,
        final(metrics).token_cache_hits == old(metrics).token_cache_hits,
        final(metrics).errors == old(metrics).errors,
        final(metrics).default_endpoint_available == old(metrics).default_endpoint_available,
        final(metrics).available_resources == old(metrics).available_resources,
{
    metrics.total_sessions.add(session_type, 1);
    metrics.active_sessions = metrics.active_sessions.wrapping_add(1);
}

/// Record a session's end: one active session fewer.
pub fn record_session_closed(metrics: &mut Metrics)
    ensures
        *final(metrics) == (Metrics {
            active_sessions: gauge_step(old(metrics).active_sessions, false),
            ..*old(metrics)
        }),
{
    metrics.active_sessions = metrics.active_sessions.wrapping_sub(1);
}

/// Record a packet received: one more packet and `size` more bytes from its source.
pub fn record_packet_received(metrics: &mut Metrics, source: &str, size: usize)
    ensures
        spec_counter(final(metrics).packets_received.entries@, source@) == counter_sum(
            spec_counter(old(metrics).packets_received.entries@, source@),
            1,
        ),
        spec_counter(final(metrics).bytes_received.entries@, source@) == counter_sum(
            spec_counter(old(metrics).bytes_received.entries@, source@),
            size as u64,
        ),
        forall|other: Seq<char>|
            other != source@ ==> #[trigger] spec_counter(
                final(metrics).packets_received.entries@,
                other,
            ) == spec_counter(old(metrics).packets_received.entries@, other),
        forall|other: Seq<char>|
            other != source@ ==> #[trigger] spec_counter(
                final(metrics).bytes_received.entries@,
                other,
            ) == spec_counter(old(metrics).bytes_received.entries@, other),
        final(metrics).active_sessions == old(metrics).active_sessions,
        final(metrics).total_sessions == old(metrics).total_sessions,
        final(metrics).packets_sent == old(metrics).packets_sent,
        final(metrics).bytes_sent == old(metrics).bytes_sent,
        final(metrics).token_cache_hits == old(metrics).token_cache_hits,
        final(metrics).errors == old(metrics).errors,
        final(metrics).default_endpoint_available == old(metrics).default_endpoint_available,
        final(metrics).available_resources == old(metrics).available_resources,
{
    metrics.packets_received.add(source, 1);
    metrics.bytes_received.add(source, size as u64);
}

/// Record a packet sent: one more packet and `size` more bytes to its destination.
pub fn record_packet_sent(metrics: &mut Metrics, destination: &str, size: usize)
    ensures
        spec_counter(final(metrics).packets_sent.entries@, destination@) == counter_sum(
            spec_counter(old(metrics).packets_sent.entries@, destination@),
            1,
        ),
        spec_counter(final(metrics).bytes_sent.entries@, destination@) == counter_sum(
            spec_counter(old(metrics).bytes_sent.entries@, destination@),
            size as u64,
        ),
        forall|other: Seq<char>|
            other != destination@ ==> #[trigger] spec_counter(
                final(metrics).packets_sent.entries@,
                other,
            ) == spec_counter(old(metrics).packets_sent.entries@, other),
        forall|other: Seq<char>|
            other != destination@ ==> #[trigger] spec_counter(
                final(metrics).bytes_sent.entries@,
                other,
            ) == spec_counter(old(metrics).bytes_sent.entries@, other),
        final(metrics).active_sessions == old(metrics).active_sessions,
        final(metrics).total_sessions == old(metrics).total_sessions,
        final(metrics).packets_received == old(metrics).packets_received,
        final(metrics).bytes_received == old(metrics).bytes_received,
        final(metrics).token_cache_hits == old(metrics).token_cache_hits,
        final(metrics).errors == old(metrics).errors,
        final(metrics).default_endpoint_available == old(metrics).default_endpoint_available,
        final(metrics).available_resources == old(metrics).available_resources,
{
    metrics.packets_sent.add(destination, 1);
    metrics.bytes_sent.add(destination, size as u64);
}

/// The label of a token cache lookup: `hit` or `miss`.
pub open spec fn spec_access_label(hit: bool) -> Seq<char> {
    if hit {
        "hit"@
    } else {
        "miss"@
    }
}

/// Record token cache access: one more hit or one more miss.
pub fn record_token_cache_access(metrics: &mut Metrics, hit: bool)
    ensures
        spec_counter(final(metrics).token_cache_hits.entries@, spec_access_label(hit))
            == counter_sum(
            spec_counter(old(metrics).token_cache_hits.entries@, spec_access_label(hit)),
            1,
        ),
        forall|other: Seq<char>|
            other != spec_access_label(hit) ==> #[trigger] spec_counter(
                final(metrics).token_cache_hits.entries@,
                other,
            ) == spec_counter(old(metrics).token_cache_hits.entries@, other),
        final(metrics).active_sessions == old(metrics).active_sessions,
        final(metrics).total_sessions == old(metrics).total_sessions,
        final(metrics).packets_received == old(metrics).packets_received,
        final(metrics).bytes_received == old(metrics).bytes_received,
        final(metrics).packets_sent == old(metrics).packets_sent,
        final(metrics).bytes_sent == old(metrics).bytes_sent,
        final(metrics).errors == old(metrics).errors,
        final(metrics).default_endpoint_available == old(metrics).default_endpoint_available,
        final(metrics).available_resources == old(metrics).available_resources,
{
    let result = if hit {
        "hit"
    } else {
        "miss"
    };
    metrics.token_cache_hits.add(result, 1);
}

/// Record error: one more error of its type in its component.
pub fn record_error(metrics: &mut Metrics, error_type: &str, component: &str)
    ensures
        spec_pair_counter(final(metrics).errors.entries@, error_type@, component@) == counter_sum(
            spec_pair_counter(old(metrics).errors.entries@, error_type@, component@),
            1,
        ),
        forall|a: Seq<char>, b: Seq<char>|
            !(a == error_type@ && b == component@) ==> #[trigger] spec_pair_counter(
                final(metrics).errors.entries@,
                a,
                b,
            ) == spec_pair_counter(old(metrics).errors.entries@, a, b),
        final(metrics).active_sessions == old(metrics).active_sessions,
        final(metrics).total_sessions == old(metrics).total_sessions,
        final(metrics).packets_received == old(metrics).packets_received,
        final(metrics).bytes_received == old(metrics).bytes_received,
        final(metrics).packets_sent == old(metrics).packets_sent,
        final(metrics).bytes_sent == old(metrics).bytes_sent,
        final(metrics).token_cache_hits == old(metrics).token_cache_hits,
        final(metrics).default_endpoint_available == old(metrics).default_endpoint_available,
        final(metrics).available_resources == old(metrics).available_resources,
{
    let ghost before = metrics.errors.entries@;
    let mut i: usize = 0;
    while i < metrics.errors.entries.len()
        invariant
            i <= metrics.errors.entries.len(),
            *metrics == *old(metrics),
            before == metrics.errors.entries@,
            forall|j: int|
                0 <= j < i ==> !((#[trigger] before[j]).0@ == error_type@ && before[j].1@
                    == component@),
        decreases metrics.errors.entries.len() - i,
    {
        if *metrics.errors.entries[i].0.as_str() == *error_type
            && *metrics.errors.entries[i].1.as_str() == *component {
            let a = metrics.errors.entries[i].0.clone();
            let b = metrics.errors.entries[i].1.clone();
            let next = metrics.errors.entries[i].2.wrapping_add(1);
            metrics.errors.entries.set(i, (a, b, next));
            proof {
                let after = metrics.errors.entries@;
                lemma_pair_counter_at(before, error_type@, component@, i as int);
                assert forall|x: Seq<char>, y: Seq<char>| #[trigger]
                    spec_pair_counter(after, x, y) == if x == error_type@ && y == component@ {
                        next
                    } else {
                        spec_pair_counter(before, x, y)
                    } by {
                    lemma_pair_counter_set(
                        before,
                        after,
                        error_type@,
                        component@,
                        next,
                        i as int,
                        x,
                        y,
                    );
                }
            }
            return ;
        }
        i += 1;
    }
    metrics.errors.entries.push((error_type.to_owned(), component.to_owned(), 1));
    proof {
        let after = metrics.errors.entries@;
        lemma_pair_counter_at(before, error_type@, component@, i as int);
        assert forall|x: Seq<char>, y: Seq<char>| #[trigger]
            spec_pair_counter(after, x, y) == if x == error_type@ && y == component@ {
                1u64
            } else {
                spec_pair_counter(before, x, y)
            } by {
            lemma_pair_counter_set(before, after, error_type@, component@, 1, i as int, x, y);
        }
    }
}

/// The count of a pair of labels is that of its first entry, zero without one.
proof fn lemma_pair_counter_at(entries: Seq<(String, String, u64)>, a: Seq<char>, b: Seq<char>, i: int)
    requires
        0 <= i <= entries.len(),
        forall|j: int| 0 <= j < i ==> !((#[trigger] entries[j]).0@ == a && entries[j].1@ == b),
        i < entries.len() ==> entries[i].0@ == a && entries[i].1@ == b,
    ensures
        spec_pair_counter(entries, a, b) == if i < entries.len() {
            entries[i].2
        } else {
            0
        },
    decreases entries.len(),
{
    if i > 0 {
        let rest = entries.skip(1);
        assert forall|j: int| 0 <= j < i - 1 implies !((#[trigger] rest[j]).0@ == a && rest[j].1@
            == b) by {
            assert(rest[j] == entries[j + 1]);
        }
        lemma_pair_counter_at(rest, a, b, i - 1);
    }
}

/// Replacing the first entry for a pair of labels, or adding one, changes that pair's count only.
proof fn lemma_pair_counter_set(
    entries: Seq<(String, String, u64)>,
    after: Seq<(String, String, u64)>,
    a: Seq<char>,
    b: Seq<char>,
    value: u64,
    i: int,
    x: Seq<char>,
    y: Seq<char>,
)
    requires
        0 <= i <= entries.len(),
        forall|j: int| 0 <= j < i ==> !((#[trigger] entries[j]).0@ == a && entries[j].1@ == b),
        i < entries.len() ==> after.len() == entries.len(),
        i == entries.len() ==> after.len() == entries.len() + 1,
        after[i].0@ == a && after[i].1@ == b && after[i].2 == value,
        i < entries.len() ==> entries[i].0@ == a && entries[i].1@ == b,
        forall|j: int| 0 <= j < entries.len() && j != i ==> #[trigger] after[j] == entries[j],
    ensures
        spec_pair_counter(after, x, y) == if x == a && y == b {
            value
        } else {
            spec_pair_counter(entries, x, y)
        },
    decreases entries.len(),
{
    if i == 0 {
        if entries.len() == 0 {
            assert(after.skip(1).len() == 0);
            assert(spec_pair_counter(after.skip(1), x, y) == 0);
        } else {
            assert(after.skip(1) =~= entries.skip(1));
        }
    } else {
        let rest = entries.skip(1);
        let rest_after = after.skip(1);
        assert forall|j: int| 0 <= j < i - 1 implies !((#[trigger] rest[j]).0@ == a && rest[j].1@
            == b) by {
            assert(rest[j] == entries[j + 1]);
        }
        assert forall|j: int| 0 <= j < rest.len() && j != i - 1 implies #[trigger] rest_after[j]
            == rest[j] by {
            assert(after[j + 1] == entries[j + 1]);
        }
        assert(rest_after[i - 1] == after[i]);
        if i < entries.len() {
            assert(rest[i - 1] == entries[i]);
        }
        lemma_pair_counter_set(rest, rest_after, a, b, value, i - 1, x, y);
        assert(after[0] == entries[0]);
        assert(!(entries[0].0@ == a && entries[0].1@ == b));
    }
}

/// Update default endpoint availability: 1 for available, 0 for not.
pub fn update_default_endpoint_available(metrics: &mut Metrics, available: bool)
    ensures
        *final(metrics) == (Metrics {
            default_endpoint_available: if available {
                1i64
            } else {
                0i64
            },
            ..*old(metrics)
        }),
{
    metrics.default_endpoint_available = if available {
        1
    } else {
        0
    };
}

/// Update available resources count for a resource type and namespace:
/// that pair takes the count, every other pair keeps its value.
pub fn update_available_resources(
    metrics: &mut Metrics,
    resource_type: &str,
    namespace: &str,
    count: i64,
)
    ensures
        spec_pair_gauge(final(metrics).available_resources.entries@, resource_type@, namespace@)
            == Some(count),
        forall|a: Seq<char>, b: Seq<char>|
            !(a == resource_type@ && b == namespace@) ==> #[trigger] spec_pair_gauge(
                final(metrics).available_resources.entries@,
                a,
                b,
            ) == spec_pair_gauge(old(metrics).available_resources.entries@, a, b),
        final(metrics).active_sessions == old(metrics).active_sessions,
        final(metrics).total_sessions == old(metrics).total_sessions,
        final(metrics).packets_received == old(metrics).packets_received,
        final(metrics).bytes_received == old(metrics).bytes_received,
        final(metrics).packets_sent == old(metrics).packets_sent,
        final(metrics).bytes_sent == old(metrics).bytes_sent,
        final(metrics).token_cache_hits == old(metrics).token_cache_hits,
        final(metrics).errors == old(metrics).errors,
        final(metrics).default_endpoint_available == old(metrics).default_endpoint_available,
{
    let ghost before = metrics.available_resources.entries@;
    let mut i: usize = 0;
    while i < metrics.available_resources.entries.len()
        invariant
            i <= metrics.available_resources.entries.len(),
            *metrics == *old(metrics),
            before == metrics.available_resources.entries@,
            forall|j: int|
                0 <= j < i ==> !((#[trigger] before[j]).0@ == resource_type@ && before[j].1@
                    == namespace@),
        decreases metrics.available_resources.entries.len() - i,
    {
        if *metrics.available_resources.entries[i].0.as_str() == *resource_type
            && *metrics.available_resources.entries[i].1.as_str() == *namespace {
            let a = metrics.available_resources.entries[i].0.clone();
            let b = metrics.available_resources.entries[i].1.clone();
            metrics.available_resources.entries.set(i, (a, b, count));
            proof {
                let after = metrics.available_resources.entries@;
                assert forall|x: Seq<char>, y: Seq<char>| #[trigger]
                    spec_pair_gauge(after, x, y) == if x == resource_type@ && y == namespace@ {
                        Some(count)
                    } else {
                        spec_pair_gauge(before, x, y)
                    } by {
                    lemma_pair_gauge_set(
                        before,
                        after,
                        resource_type@,
                        namespace@,
                        count,
                        i as int,
                        x,
                        y,
                    );
                }
            }
            return ;
        }
        i += 1;
    }
    metrics.available_resources.entries.push((resource_type.to_owned(), namespace.to_owned(), count));
    proof {
        let after = metrics.available_resources.entries@;
        assert forall|x: Seq<char>, y: Seq<char>| #[trigger]
            spec_pair_gauge(after, x, y) == if x == resource_type@ && y == namespace@ {
                Some(count)
            } else {
                spec_pair_gauge(before, x, y)
            } by {
            lemma_pair_gauge_set(
                before,
                after,
                resource_type@,
                namespace@,
                count,
                i as int,
                x,
                y,
            );
        }
    }
}

/// Replacing the first entry for a pair of labels, or adding one, changes that pair's value only.
proof fn lemma_pair_gauge_set(
    entries: Seq<(String, String, i64)>,
    after: Seq<(String, String, i64)>,
    a: Seq<char>,
    b: Seq<char>,
    value: i64,
    i: int,
    x: Seq<char>,
    y: Seq<char>,
)
    requires
        0 <= i <= entries.len(),
        forall|j: int| 0 <= j < i ==> !((#[trigger] entries[j]).0@ == a && entries[j].1@ == b),
        i < entries.len() ==> after.len() == entries.len(),
        i == entries.len() ==> after.len() == entries.len() + 1,
        after[i].0@ == a && after[i].1@ == b && after[i].2 == value,
        i < entries.len() ==> entries[i].0@ == a && entries[i].1@ == b,
        forall|j: int| 0 <= j < entries.len() && j != i ==> #[trigger] after[j] == entries[j],
    ensures
        spec_pair_gauge(after, x, y) == if x == a && y == b {
            Some(value)
        } else {
            spec_pair_gauge(entries, x, y)
        },
    decreases entries.len(),
{
    if i == 0 {
        if entries.len() == 0 {
            assert(after.skip(1).len() == 0);
            assert(spec_pair_gauge(after.skip(1), x, y) is None);
        } else {
            assert(after.skip(1) =~= entries.skip(1));
        }
    } else {
        let rest = entries.skip(1);
        let rest_after = after.skip(1);
        assert forall|j: int| 0 <= j < i - 1 implies !((#[trigger] rest[j]).0@ == a && rest[j].1@
            == b) by {
            assert(rest[j] == entries[j + 1]);
        }
        assert forall|j: int| 0 <= j < rest.len() && j != i - 1 implies #[trigger] rest_after[j]
            == rest[j] by {
            assert(after[j + 1] == entries[j + 1]);
        }
        assert(rest_after[i - 1] == after[i]);
        if i < entries.len() {
            assert(rest[i - 1] == entries[i]);
        }
        lemma_pair_gauge_set(rest, rest_after, a, b, value, i - 1, x, y);
        assert(after[0] == entries[0]);
        assert(!(entries[0].0@ == a && entries[0].1@ == b));
    }
}

} // verus!
