//! Port maps: for each data port of the director and its protocol, the port
//! of the backend that traffic is sent to.

use vstd::prelude::*;
use crate::config::Protocol;

verus! {

/// One entry of a port map.
#[derive(Debug, Clone, Copy, PartialEq, Eq, Structural)]
pub struct PortEntry {
    pub proxy_port: u16,
    pub protocol: Protocol,
    pub target_port: u16,
}

impl PortEntry {
    /// The key of the entry: the director's port and the protocol.
    pub open spec fn key(self) -> (u16, Protocol) {
        (self.proxy_port, self.protocol)
    }
}

/// Whether no two entries have the same key.
pub open spec fn distinct_keys(s: Seq<PortEntry>) -> bool {
    forall|i: int, j: int| 0 <= i < j < s.len() ==> (#[trigger] s[i]).key() != (#[trigger] s[j]).key()
}

/// Whether some entry of `s` has the key `k`.
pub open spec fn has_key(s: Seq<PortEntry>, k: (u16, Protocol)) -> bool {
    exists|i: int| 0 <= i < s.len() && (#[trigger] s[i]).key() == k
}

/// The map that a sequence of entries stands for.
pub open spec fn entries_map(s: Seq<PortEntry>) -> Map<(u16, Protocol), u16> {
    Map::new(
        |k: (u16, Protocol)| has_key(s, k),
        |k: (u16, Protocol)| s[choose|i: int| 0 <= i < s.len() && (#[trigger] s[i]).key() == k].target_port,
    )
}

/// With distinct keys, each entry is what the map holds under its key.
pub proof fn lemma_entries_map(s: Seq<PortEntry>)
    requires
        distinct_keys(s),
    ensures
        forall|i: int|
            0 <= i < s.len() ==> entries_map(s).contains_key((#[trigger] s[i]).key()) && entries_map(
                s,
            )[s[i].key()] == s[i].target_port,
{
    assert forall|i: int| 0 <= i < s.len() implies entries_map(s).contains_key(
        (#[trigger] s[i]).key(),
    ) && entries_map(s)[s[i].key()] == s[i].target_port by {
        let k = s[i].key();
        assert(has_key(s, k));
        let c = choose|c: int| 0 <= c < s.len() && (#[trigger] s[c]).key() == k;
        if c < i {
            assert(s[c].key() != s[i].key());
        } else if i < c {
            assert(s[i].key() != s[c].key());
        }
    }
}

/// One more entry with a new key is one more key in the map.
pub proof fn lemma_entries_map_push(s: Seq<PortEntry>, e: PortEntry)
    requires
        distinct_keys(s),
        !has_key(s, e.key()),
    ensures
        distinct_keys(s.push(e)),
        entries_map(s.push(e)) == entries_map(s).insert(e.key(), e.target_port),
{
    let t = s.push(e);
    assert forall|i: int, j: int| 0 <= i < j < t.len() implies (#[trigger] t[i]).key() != (
    #[trigger] t[j]).key() by {
        if j == s.len() {
            assert(s[i].key() != e.key());
        }
    }
    lemma_entries_map(s);
    lemma_entries_map(t);
    assert forall|k: (u16, Protocol)| has_key(t, k) <==> (k == e.key() || has_key(s, k)) by {
        if has_key(t, k) {
            let i = choose|i: int| 0 <= i < t.len() && (#[trigger] t[i]).key() == k;
            if i < s.len() {
                assert(s[i].key() == k);
            }
        }
        if has_key(s, k) {
            let i = choose|i: int| 0 <= i < s.len() && (#[trigger] s[i]).key() == k;
            assert(t[i].key() == k);
        }
        if k == e.key() {
            assert(t[s.len() as int].key() == k);
        }
    }
    assert forall|k: (u16, Protocol)| has_key(t, k) implies #[trigger] entries_map(t)[k]
        == entries_map(s).insert(e.key(), e.target_port)[k] by {
        let i = choose|i: int| 0 <= i < t.len() && (#[trigger] t[i]).key() == k;
        assert(entries_map(t)[t[i].key()] == t[i].target_port);
        if i < s.len() {
            assert(s[i].key() == k);
            assert(entries_map(s)[s[i].key()] == s[i].target_port);
        }
    }
    assert(entries_map(t) =~= entries_map(s).insert(e.key(), e.target_port));
}

/// Replacing the target of an entry replaces what the map holds under its key.
pub proof fn lemma_entries_map_update(s: Seq<PortEntry>, p: int, e: PortEntry)
    requires
        distinct_keys(s),
        0 <= p < s.len(),
        s[p].key() == e.key(),
    ensures
        distinct_keys(s.update(p, e)),
        entries_map(s.update(p, e)) == entries_map(s).insert(e.key(), e.target_port),
{
    let t = s.update(p, e);
    assert forall|i: int, j: int| 0 <= i < j < t.len() implies (#[trigger] t[i]).key() != (
    #[trigger] t[j]).key() by {
        assert(s[i].key() != s[j].key());
    }
    lemma_entries_map(s);
    lemma_entries_map(t);
    assert forall|k: (u16, Protocol)| has_key(t, k) <==> (k == e.key() || has_key(s, k)) by {
        if has_key(t, k) {
            let i = choose|i: int| 0 <= i < t.len() && (#[trigger] t[i]).key() == k;
            assert(s[i].key() == k);
        }
        if has_key(s, k) {
            let i = choose|i: int| 0 <= i < s.len() && (#[trigger] s[i]).key() == k;
            assert(t[i].key() == k);
        }
        if k == e.key() {
            assert(t[p].key() == k);
        }
    }
    assert forall|k: (u16, Protocol)| has_key(t, k) implies #[trigger] entries_map(t)[k]
        == entries_map(s).insert(e.key(), e.target_port)[k] by {
        let i = choose|i: int| 0 <= i < t.len() && (#[trigger] t[i]).key() == k;
        assert(entries_map(t)[t[i].key()] == t[i].target_port);
        if i != p {
            assert(s[i].key() == k);
            assert(s[i].key() != s[p].key()) by {
                if i < p {
                    assert(s[i].key() != s[p].key());
                } else {
                    assert(s[p].key() != s[i].key());
                }
            }
            assert(entries_map(s)[s[i].key()] == s[i].target_port);
        }
    }
    assert(entries_map(t) =~= entries_map(s).insert(e.key(), e.target_port));
}

/// With distinct keys, the map has as many keys as there are entries.
pub proof fn lemma_entries_map_len(s: Seq<PortEntry>)
    requires
        distinct_keys(s),
    ensures
        entries_map(s).dom().finite(),
        entries_map(s).dom().len() == s.len(),
    decreases s.len(),
{
    if s.len() == 0 {
        assert(entries_map(s).dom() =~= Set::empty());
    } else {
        let front = s.drop_last();
        let e = s.last();
        assert forall|i: int, j: int| 0 <= i < j < front.len() implies (#[trigger] front[i]).key()
            != (#[trigger] front[j]).key() by {
            assert(s[i].key() != s[j].key());
        }
        assert(!has_key(front, e.key())) by {
            if has_key(front, e.key()) {
                let i = choose|i: int| 0 <= i < front.len() && (#[trigger] front[i]).key() == e.key();
                assert(s[i].key() != s[s.len() - 1].key());
            }
        }
        lemma_entries_map_len(front);
        lemma_entries_map_push(front, e);
        assert(front.push(e) =~= s);
        assert(entries_map(s).dom() =~= entries_map(front).dom().insert(e.key()));
        assert(!entries_map(front).dom().contains(e.key()));
    }
}

/// A copy of the entries.
fn copy_entries(v: &Vec<PortEntry>) -> (r: Vec<PortEntry>)
    ensures
        r@ == v@,
{
    let mut entries: Vec<PortEntry> = Vec::new();
    let mut i: usize = 0;
    while i < v.len()
        invariant
            i <= v.len(),
            entries@ == v@.take(i as int),
        decreases v.len() - i,
    {
        entries.push(v[i]);
        assert(v@.take(i + 1) =~= v@.take(i as int).push(v@[i as int]));
        i += 1;
    }
    assert(v@.take(i as int) =~= v@);
    entries
}

/// A port map. For each data port of the director and its protocol it holds
/// at most one port of the backend.
#[derive(Debug)]
pub struct PortMap {
    entries: Vec<PortEntry>,
}

impl View for PortMap {
    type V = Map<(u16, Protocol), u16>;

    closed spec fn view(&self) -> Map<(u16, Protocol), u16> {
        entries_map(self.entries@)
    }
}

impl PortMap {
    #[verifier::type_invariant]
    spec fn well_formed(self) -> bool {
        distinct_keys(self.entries@)
    }

    /// The entries of the map, in the order in which their keys were first inserted.
    pub closed spec fn spec_entries(&self) -> Seq<PortEntry> {
        self.entries@
    }

    /// An empty port map.
    pub fn new() -> (r: Self)
        ensures
            r@ == Map::<(u16, Protocol), u16>::empty(),
            r.spec_entries() == Seq::<PortEntry>::empty(),
    {
        let r = PortMap { entries: Vec::new() };
        assert(r@ =~= Map::<(u16, Protocol), u16>::empty());
        r
    }

    /// The position of the entry for a key.
    fn find(&self, proxy_port: u16, protocol: Protocol) -> (r: Option<usize>)
        ensures
            match r {
                Some(i) => i < self.entries@.len() && self.entries@[i as int].key() == (
                    proxy_port,
                    protocol,
                ),
                None => !has_key(self.entries@, (proxy_port, protocol)),
            },
    {
        let mut i: usize = 0;
        while i < self.entries.len()
            invariant
                i <= self.entries.len(),
                forall|j: int| 0 <= j < i ==> (#[trigger] self.entries@[j]).key() != (proxy_port, protocol),
            decreases self.entries.len() - i,
        {
            if self.entries[i].proxy_port == proxy_port && self.entries[i].protocol == protocol {
                return Some(i);
            }
            i += 1;
        }
        None
    }

    /// The backend port for a data port and protocol.
    pub fn get(&self, proxy_port: u16, protocol: Protocol) -> (r: Option<u16>)
        ensures
            r == if self@.contains_key((proxy_port, protocol)) {
                Some(self@[(proxy_port, protocol)])
            } else {
                None
            },
    {
        proof {
            use_type_invariant(self);
            lemma_entries_map(self.entries@);
        }
        match self.find(proxy_port, protocol) {
            Some(i) => Some(self.entries[i].target_port),
            None => None,
        }
    }

    /// Whether the map has a backend port for a data port and protocol.
    pub fn contains_key(&self, proxy_port: u16, protocol: Protocol) -> (r: bool)
        ensures
            r == self@.contains_key((proxy_port, protocol)),
    {
        self.get(proxy_port, protocol).is_some()
    }

    /// Sets the backend port for a data port and protocol.
    pub fn insert(&mut self, proxy_port: u16, protocol: Protocol, target_port: u16)
        ensures
            final(self)@ == old(self)@.insert((proxy_port, protocol), target_port),
    {
        proof {
            use_type_invariant(&*self);
        }
        let entry = PortEntry { proxy_port, protocol, target_port };
        let mut entries = copy_entries(&self.entries);
        match self.find(proxy_port, protocol) {
            Some(i) => {
                proof {
                    lemma_entries_map_update(self.entries@, i as int, entry);
                }
                entries.set(i, entry);
            },
            None => {
                proof {
                    lemma_entries_map_push(self.entries@, entry);
                }
                entries.push(entry);
            },
        }
        self.entries = entries;
    }

    /// The number of keys in the map.
    pub fn len(&self) -> (r: usize)
        ensures
            self@.dom().finite(),
            r == self@.dom().len(),
    {
        proof {
            use_type_invariant(self);
            lemma_entries_map_len(self.entries@);
        }
        self.entries.len()
    }

    /// The entries of the map, each key once.
    pub fn entries(&self) -> (r: &Vec<PortEntry>)
        ensures
            r@ == self.spec_entries(),
            distinct_keys(r@),
            self@ == entries_map(r@),
    {
        proof {
            use_type_invariant(self);
        }
        &self.entries
    }
}

impl Clone for PortMap {
    fn clone(&self) -> (r: Self)
        ensures
            r@ == self@,
            r.spec_entries() == self.spec_entries(),
    {
        proof {
            use_type_invariant(self);
        }
        PortMap { entries: copy_entries(&self.entries) }
    }
}

} // verus!
