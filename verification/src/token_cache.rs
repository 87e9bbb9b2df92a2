//! The token cache: tokens that stand for a backend target, each valid for
//! a fixed time after it was minted.

use vstd::prelude::*;
use crate::config::Protocol;
use crate::port_map::{PortEntry, PortMap};

verus! {

/// The address and port that traffic is sent to.
#[derive(Debug)]
pub struct TargetAddr {
    pub ip: String,
    pub port: u16,
}

/// Why a target has no address for a data port.
#[derive(Debug, Clone, Copy, PartialEq, Eq, Structural)]
pub enum AddrError {
    /// The target has no port for the data port and protocol.
    NoPortMapping { proxy_port: u16, protocol: Protocol },
    /// The target has no port at all.
    NoPortMappings,
}

impl AddrError {
    /// The message for this error.
    pub open spec fn spec_message(self) -> Seq<char> {
        match self {
            AddrError::NoPortMapping { .. } => "No port mapping found for proxy port"@,
            AddrError::NoPortMappings => "No port mappings available"@,
        }
    }

    /// The message for this error.
    pub fn message(&self) -> (r: &'static str)
        ensures
            r@ == self.spec_message(),
    {
        match self {
            AddrError::NoPortMapping { .. } => "No port mapping found for proxy port",
            AddrError::NoPortMappings => "No port mappings available",
        }
    }
}

/// Target information for a token: the backend's address and its port map.
#[derive(Debug)]
pub struct TokenTarget {
    pub cluster_ip: String,
    /// For each data port and protocol, the port of the backend.
    pub port_mappings: PortMap,
}

impl TokenTarget {
    /// Create a new `TokenTarget` with a single port: datagrams that
    /// arrive on `port` go to the same port of the backend.
    pub fn single_port(cluster_ip: String, port: u16) -> (r: Self)
        ensures
            r.cluster_ip == cluster_ip,
            r.port_mappings@ == Map::<(u16, Protocol), u16>::empty().insert(
                (port, Protocol::Udp),
                port,
            ),
    {
        let mut port_mappings = PortMap::new();
        port_mappings.insert(port, Protocol::Udp, port);
        TokenTarget { cluster_ip, port_mappings }
    }

    /// Create a new `TokenTarget` with multiple ports.
    pub fn multi_port(cluster_ip: String, port_mappings: PortMap) -> (r: Self)
        ensures
            r.cluster_ip == cluster_ip,
            r.port_mappings == port_mappings,
    {
        TokenTarget { cluster_ip, port_mappings }
    }

    /// The address of the target for a data port and protocol.
    pub fn to_socket_addr_for_port(&self, proxy_port: u16, protocol: Protocol) -> (r: Result<
        TargetAddr,
        AddrError,
    >)
        ensures
            match r {
                Ok(addr) => {
                    &&& self.port_mappings@.contains_key((proxy_port, protocol))
                    &&& addr.ip == self.cluster_ip
                    &&& addr.port == self.port_mappings@[(proxy_port, protocol)]
                },
                Err(e) => {
                    &&& !self.port_mappings@.contains_key((proxy_port, protocol))
                    &&& e == AddrError::NoPortMapping { proxy_port, protocol }
                },
            },
    {
        match self.port_mappings.get(proxy_port, protocol) {
            Some(port) => Ok(TargetAddr { ip: self.cluster_ip.clone(), port }),
            None => Err(AddrError::NoPortMapping { proxy_port, protocol }),
        }
    }

    /// An address of the target: the backend's address with the port of
    /// the first entry of its port map.
    pub fn to_socket_addr(&self) -> (r: Result<TargetAddr, AddrError>)
        ensures
            match r {
                Ok(addr) => {
                    &&& addr.ip == self.cluster_ip
                    &&& self.port_mappings.spec_entries().len() > 0
                    &&& addr.port == self.port_mappings.spec_entries()[0].target_port
                    &&& exists|k: (u16, Protocol)|
                        self.port_mappings@.contains_key(k) && #[trigger] self.port_mappings@[k]
                            == addr.port
                },
                Err(e) => {
                    &&& e == AddrError::NoPortMappings
                    &&& self.port_mappings.spec_entries().len() == 0
                    &&& self.port_mappings@ == Map::<(u16, Protocol), u16>::empty()
                },
            },
    {
        let entries = self.port_mappings.entries();
        proof {
            crate::port_map::lemma_entries_map(entries@);
        }
        if entries.len() > 0 {
            let first: PortEntry = entries[0];
            assert(self.port_mappings@.contains_key(first.key()) && self.port_mappings@[first.key()]
                == first.target_port);
            Ok(TargetAddr { ip: self.cluster_ip.clone(), port: first.target_port })
        } else {
            assert(self.port_mappings@ =~= Map::<(u16, Protocol), u16>::empty());
            Err(AddrError::NoPortMappings)
        }
    }
}

impl Clone for TokenTarget {
    fn clone(&self) -> (r: Self)
        ensures
            r.cluster_ip == self.cluster_ip,
            r.port_mappings@ == self.port_mappings@,
            r.port_mappings.spec_entries() == self.port_mappings.spec_entries(),
    {
        TokenTarget { cluster_ip: self.cluster_ip.clone(), port_mappings: self.port_mappings.clone() }
    }
}

/// A token, the target it stands for and the time it was minted.
pub struct TokenEntry {
    pub token: String,
    pub target: TokenTarget,
    pub minted_at: u64,
}

/// Whether no two entries have the same token.
pub open spec fn distinct_tokens(s: Seq<TokenEntry>) -> bool {
    forall|i: int, j: int| 0 <= i < j < s.len() ==> (#[trigger] s[i]).token@ != (#[trigger] s[j]).token@
}

/// The position of the entry with the token `token`, if there is one.
pub open spec fn token_position(s: Seq<TokenEntry>, token: Seq<char>) -> Option<int> {
    if exists|i: int| 0 <= i < s.len() && (#[trigger] s[i]).token@ == token {
        Some(choose|i: int| 0 <= i < s.len() && (#[trigger] s[i]).token@ == token)
    } else {
        None
    }
}

/// What the entries hold under a token: the target and the time of minting.
pub open spec fn held_in(s: Seq<TokenEntry>, token: Seq<char>) -> Option<(TokenTarget, u64)> {
    match token_position(s, token) {
        Some(i) => Some((s[i].target, s[i].minted_at)),
        None => None,
    }
}

/// What the entries hold under a token, if its lifetime has not passed at `now`.
pub open spec fn kept_in(s: Seq<TokenEntry>, ttl: u64, token: Seq<char>, now: u64) -> Option<
    (TokenTarget, u64),
> {
    match held_in(s, token) {
        Some((target, minted_at)) => if is_live(minted_at, ttl, now) {
            Some((target, minted_at))
        } else {
            None
        },
        None => None,
    }
}

/// With distinct tokens, each entry is what is held under its token.
pub proof fn lemma_held(s: Seq<TokenEntry>, i: int)
    requires
        distinct_tokens(s),
        0 <= i < s.len(),
    ensures
        token_position(s, s[i].token@) == Some(i),
        held_in(s, s[i].token@) == Some((s[i].target, s[i].minted_at)),
{
    let c = choose|c: int| 0 <= c < s.len() && (#[trigger] s[c]).token@ == s[i].token@;
    if c < i {
        assert(s[c].token@ != s[i].token@);
    } else if i < c {
        assert(s[i].token@ != s[c].token@);
    }
}

/// Whether two runs of bytes are the same.
fn bytes_eq(a: &[u8], b: &Vec<u8>) -> (r: bool)
    ensures
        r == (a@ == b@),
{
    if a.len() != b.len() {
        return false;
    }
    let mut i: usize = 0;
    while i < a.len()
        invariant
            i <= a.len(),
            a.len() == b.len(),
            forall|j: int| 0 <= j < i ==> a@[j] == b@[j],
        decreases a.len() - i,
    {
        if a[i] != b[i] {
            return false;
        }
        i += 1;
    }
    assert(a@ =~= b@);
    true
}

/// Whether an entry minted at `minted_at` with lifetime `ttl` is still valid at `now`.
pub open spec fn is_live(minted_at: u64, ttl: u64, now: u64) -> bool {
    now - minted_at < ttl
}

/// Whether `c` is a hexadecimal digit in lower case.
pub open spec fn is_lower_hex(c: char) -> bool {
    ('0' <= c && c <= '9') || ('a' <= c && c <= 'f')
}

/// Whether `s` has the hyphenated form of an identifier: 36 characters,
/// hyphens at the positions 8, 13, 18 and 23, and hexadecimal digits in lower
/// case everywhere else.
pub open spec fn is_hyphenated(s: Seq<char>) -> bool {
    &&& s.len() == 36
    &&& forall|i: int|
        0 <= i < 36 ==> if i == 8 || i == 13 || i == 18 || i == 23 {
            #[trigger] s[i] == '-'
        } else {
            is_lower_hex(s[i])
        }
}

/// `Uuid::new_v4`, written with `to_string`: a random identifier in the
/// hyphenated form. Which identifier comes out is left open. The call does not
/// return where the system has no random bytes to give.
#[verifier::external_body]
fn fresh_identifier() -> (r: String)
    ensures
        is_hyphenated(r@),
{
    uuid::Uuid::new_v4().to_string()
}

/// Token cache with a fixed lifetime for every token. Time is what the
/// caller says it is, in seconds of a clock that does not run backwards.
pub struct TokenCache {
    entries: Vec<TokenEntry>,
    ttl_seconds: u64,
}

impl TokenCache {
    #[verifier::type_invariant]
    spec fn well_formed(self) -> bool {
        distinct_tokens(self.entries@)
    }

    /// The lifetime of a token, in seconds.
    pub closed spec fn ttl(&self) -> u64 {
        self.ttl_seconds
    }

    /// What the cache holds under a token: the target and the time of minting.
    pub closed spec fn holds(&self, token: Seq<char>) -> Option<(TokenTarget, u64)> {
        held_in(self.entries@, token)
    }

    /// The target that a lookup of `token` at time `now` gives: what the
    /// cache holds under the token, as long as the token's lifetime has not passed.
    pub open spec fn live_at(&self, token: Seq<char>, now: u64) -> Option<TokenTarget> {
        match self.holds(token) {
            Some((target, minted_at)) => if is_live(minted_at, self.ttl(), now) {
                Some(target)
            } else {
                None
            },
            None => None,
        }
    }

    /// What is held under `token` after a token was stored at `now`: the
    /// entries whose lifetime has passed at `now` are gone, the others stay.
    pub open spec fn kept_at(&self, token: Seq<char>, now: u64) -> Option<(TokenTarget, u64)> {
        match self.holds(token) {
            Some((target, minted_at)) => if is_live(minted_at, self.ttl(), now) {
                Some((target, minted_at))
            } else {
                None
            },
            None => None,
        }
    }

    /// Create a new token cache with the specified lifetime in seconds.
    pub fn new(ttl_seconds: u64) -> (r: Self)
        ensures
            r.ttl() == ttl_seconds,
            forall|token: Seq<char>| r.holds(token) is None,
    {
        TokenCache { entries: Vec::new(), ttl_seconds }
    }

    /// The position of the entry with the token `token`.
    fn find(&self, token: &str) -> (r: Option<usize>)
        ensures
            match r {
                Some(i) => token_position(self.entries@, token@) == Some(i as int) && i
                    < self.entries@.len() && self.entries@[i as int].token@ == token@,
                None => token_position(self.entries@, token@) is None,
            },
    {
        proof {
            use_type_invariant(self);
        }
        let mut i: usize = 0;
        while i < self.entries.len()
            invariant
                i <= self.entries.len(),
                distinct_tokens(self.entries@),
                forall|j: int| 0 <= j < i ==> (#[trigger] self.entries@[j]).token@ != token@,
            decreases self.entries.len() - i,
        {
            if *self.entries[i].token.as_str() == *token {
                proof {
                    let c = choose|c: int|
                        0 <= c < self.entries@.len() && (#[trigger] self.entries@[c]).token@
                            == token@;
                    if c < i {
                        assert(self.entries@[c].token@ != self.entries@[i as int].token@);
                    } else if i < c {
                        assert(self.entries@[i as int].token@ != self.entries@[c].token@);
                    }
                }
                return Some(i);
            }
            i += 1;
        }
        None
    }

    /// Look up a token and return the target if the token is held and its
    /// lifetime has not passed at `now`.
    pub fn lookup(&self, token: &str, now: u64) -> (r: Option<&TokenTarget>)
        ensures
            match r {
                Some(target) => self.live_at(token@, now) == Some(*target),
                None => self.live_at(token@, now) is None,
            },
    {
        match self.find(token) {
            Some(i) => {
                let entry = &self.entries[i];
                if now < entry.minted_at || now - entry.minted_at < self.ttl_seconds {
                    Some(&entry.target)
                } else {
                    None
                }
            },
            None => None,
        }
    }

    /// The target that a lookup of the token written as the bytes `bytes`
    /// gives at time `now`: that of the token whose UTF-8 encoding the bytes are.
    pub open spec fn live_bytes_at(&self, bytes: Seq<u8>, now: u64) -> Option<TokenTarget> {
        if exists|token: Seq<char>|
            self.holds(token) is Some && #[trigger] vstd::utf8::encode_utf8(token) == bytes {
            self.live_at(
                choose|token: Seq<char>|
                    self.holds(token) is Some && #[trigger] vstd::utf8::encode_utf8(token) == bytes,
                now,
            )
        } else {
            None
        }
    }

    /// Look up a token that is given as bytes, as a control packet carries it.
    pub fn lookup_bytes(&self, bytes: &Vec<u8>, now: u64) -> (r: Option<&TokenTarget>)
        ensures
            match r {
                Some(target) => self.live_bytes_at(bytes@, now) == Some(*target),
                None => self.live_bytes_at(bytes@, now) is None,
            },
    {
        proof {
            use_type_invariant(self);
        }
        let mut i: usize = 0;
        while i < self.entries.len()
            invariant
                i <= self.entries.len(),
                distinct_tokens(self.entries@),
                forall|j: int|
                    0 <= j < i ==> vstd::utf8::encode_utf8((#[trigger] self.entries@[j]).token@)
                        != bytes@,
            decreases self.entries.len() - i,
        {
            let entry = &self.entries[i];
            if bytes_eq(entry.token.as_str().as_bytes(), bytes) {
                proof {
                    let found = entry.token@;
                    lemma_held(self.entries@, i as int);
                    assert(self.holds(found) is Some);
                    let c = choose|token: Seq<char>|
                        self.holds(token) is Some && #[trigger] vstd::utf8::encode_utf8(token)
                            == bytes@;
                    vstd::utf8::encode_utf8_decode_utf8(c);
                    vstd::utf8::encode_utf8_decode_utf8(found);
                    assert(c == found);
                }
                return if now < entry.minted_at || now - entry.minted_at < self.ttl_seconds {
                    Some(&entry.target)
                } else {
                    None
                };
            }
            i += 1;
        }
        proof {
            if exists|token: Seq<char>|
                self.holds(token) is Some && #[trigger] vstd::utf8::encode_utf8(token) == bytes@ {
                let c = choose|token: Seq<char>|
                    self.holds(token) is Some && #[trigger] vstd::utf8::encode_utf8(token)
                        == bytes@;
                let p = token_position(self.entries@, c)->0;
                assert(self.entries@[p].token@ == c);
            }
        }
        None
    }

    /// Stores `target` under `token`, minted at `now`. What was held under
    /// the token before is replaced; entries whose lifetime has passed at
    /// `now` are dropped; every other entry stays as it is.
    pub fn store(&mut self, token: String, target: TokenTarget, now: u64)
        ensures
            final(self).ttl() == old(self).ttl(),
            final(self).holds(token@) == Some((target, now)),
            forall|other: Seq<char>|
                other != token@ ==> #[trigger] final(self).holds(other) == old(self).kept_at(
                    other,
                    now,
                ),
    {
        proof {
            use_type_invariant(&*self);
        }
        let ghost before = self.entries@;
        let ttl = self.ttl_seconds;
        let mut kept: Vec<TokenEntry> = Vec::new();
        // positions in `before` of the entries of `kept`, in order
        let ghost mut origin: Seq<int> = Seq::empty();
        let mut old_entries: Vec<TokenEntry> = Vec::new();
        std::mem::swap(&mut old_entries, &mut self.entries);
        // entries are taken from the back; `kept` is reversed with respect to `before`
        while old_entries.len() > 0
            invariant
                old_entries@.len() <= before.len(),
                old_entries@ == before.take(old_entries@.len() as int),
                distinct_tokens(before),
                self.entries@.len() == 0,
                self.ttl_seconds == ttl,
                origin.len() == kept@.len(),
                forall|a: int| 0 <= a < kept@.len() ==> {
                    &&& old_entries@.len() <= #[trigger] origin[a] < before.len()
                    &&& kept@[a] == before[origin[a]]
                    &&& before[origin[a]].token@ != token@
                    &&& is_live(before[origin[a]].minted_at, ttl, now)
                },
                forall|a: int, b: int| 0 <= a < b < kept@.len() ==> #[trigger] origin[a] != #[trigger] origin[b],
                forall|p: int|
                    old_entries@.len() <= p < before.len() && (#[trigger] before[p]).token@ != token@
                        && is_live(before[p].minted_at, ttl, now) ==> exists|a: int|
                        0 <= a < kept@.len() && #[trigger] origin[a] == p,
            decreases old_entries.len(),
        {
            let ghost p = old_entries@.len() - 1;
            let entry = old_entries.pop().unwrap();
            assert(entry == before[p]);
            assert(old_entries@ =~= before.take(p));
            let live = now < entry.minted_at || now - entry.minted_at < ttl;
            if live && !(*entry.token.as_str() == *token.as_str()) {
                kept.push(entry);
                proof {
                    let prev = origin;
                    origin = origin.push(p);
                    assert forall|q: int|
                        old_entries@.len() <= q < before.len() && (#[trigger] before[q]).token@
                            != token@ && is_live(before[q].minted_at, ttl, now) implies exists|a: int|
                        0 <= a < kept@.len() && #[trigger] origin[a] == q by {
                        if q == p {
                            assert(origin[kept@.len() - 1] == p);
                        } else {
                            let a = choose|a: int| 0 <= a < prev.len() && #[trigger] prev[a] == q;
                            assert(origin[a] == q);
                        }
                    }
                }
            }
        }
        proof {
            assert forall|a: int, b: int| 0 <= a < b < kept@.len() implies (#[trigger] kept@[a]).token@
                != (#[trigger] kept@[b]).token@ by {
                let x = origin[a];
                let y = origin[b];
                if x < y {
                    assert(before[x].token@ != before[y].token@);
                } else {
                    assert(before[y].token@ != before[x].token@);
                }
            }
        }
        kept.push(TokenEntry { token, target, minted_at: now });
        proof {
            let after = kept@;
            let last = after.len() - 1;
            assert forall|a: int, b: int| 0 <= a < b < after.len() implies (#[trigger] after[a]).token@
                != (#[trigger] after[b]).token@ by {
                if b == last {
                    assert(after[a] == before[origin[a]]);
                }
            }
            // what the new entries hold, token by token
            assert(after[last].token@ == token@);
            assert(token_position(after, token@) == Some(last)) by {
                let c = choose|c: int| 0 <= c < after.len() && (#[trigger] after[c]).token@ == token@;
                if c != last {
                    assert(after[c] == before[origin[c]]);
                }
            }
            assert forall|other: Seq<char>| other != token@ implies #[trigger] held_in(after, other)
                == kept_in(before, ttl, other, now) by {
                match token_position(after, other) {
                    Some(i) => {
                        assert(after[i].token@ == other);
                        assert(i != last);
                        let p = origin[i];
                        assert(after[i] == before[p]);
                        assert(before[p].token@ == other);
                        let c = choose|c: int|
                            0 <= c < before.len() && (#[trigger] before[c]).token@ == other;
                        if c < p {
                            assert(before[c].token@ != before[p].token@);
                        } else if p < c {
                            assert(before[p].token@ != before[c].token@);
                        }
                    },
                    None => {
                        match token_position(before, other) {
                            Some(p) => {
                                assert(before[p].token@ == other);
                                if is_live(before[p].minted_at, ttl, now) {
                                    let a = choose|a: int|
                                        0 <= a < origin.len() && #[trigger] origin[a] == p;
                                    assert(after[a] == before[p]);
                                    assert(after[a].token@ == other);
                                }
                            },
                            None => {},
                        }
                    },
                }
            }
        }
        self.entries = kept;
    }

    /// Generate a new token and store the target under it, minted at `now`.
    /// The token is a freshly drawn identifier of 36 characters.
    pub fn generate_token(&mut self, target: TokenTarget, now: u64) -> (r: String)
        ensures
            is_hyphenated(r@),
            final(self).ttl() == old(self).ttl(),
            final(self).holds(r@) == Some((target, now)),
            forall|other: Seq<char>|
                other != r@ ==> #[trigger] final(self).holds(other) == old(self).kept_at(other, now),
    {
        let token = fresh_identifier();
        let copy = token.clone();
        self.store(token, target, now);
        copy
    }
}

} // verus!
