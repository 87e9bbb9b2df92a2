//! The session table: for each client address the backend it is bound to,
//! the ephemeral sockets that carry its datagrams, and the source ports it
//! has been seen on.

use vstd::prelude::*;
use dashmap::DashMap;
use crate::config::Protocol;
use crate::maps::{
    session_entries, sessions_get, sessions_insert, sessions_keys, sessions_new,
    sessions_remove,
};
use crate::port_map::PortMap;
use crate::token_cache::{AddrError, TargetAddr};

verus! {

/// An IP address as a number: 32 bits for version 4, 128 bits for version 6.
#[derive(Debug, Clone, Copy, PartialEq, Eq, Hash, Structural)]
pub struct IpAddress {
    /// Whether this is a version 6 address.
    pub v6: bool,
    /// The bits of the address, the first byte highest.
    pub bits: u128,
}

impl IpAddress {
    /// The key under which the session table keeps a client: the version
    /// of the address (4 or 6) and its bits.
    pub open spec fn spec_key(self) -> (u8, u128) {
        (
            if self.v6 {
                6u8
            } else {
                4u8
            },
            self.bits,
        )
    }

    /// The key under which the session table keeps a client.
    pub fn key(&self) -> (r: (u8, u128))
        ensures
            r == self.spec_key(),
    {
        (
            if self.v6 {
                6
            } else {
                4
            },
            self.bits,
        )
    }

    /// The version 4 address `a.b.c.d`.
    pub fn v4(a: u8, b: u8, c: u8, d: u8) -> (r: Self)
        ensures
            !r.v6,
            r.bits == a as u128 * 0x100_0000 + b as u128 * 0x1_0000 + c as u128 * 0x100 + d as u128,
    {
        IpAddress {
            v6: false,
            bits: (a as u128) * 0x100_0000 + (b as u128) * 0x1_0000 + (c as u128) * 0x100 + (
            d as u128),
        }
    }
}

/// The address of a client: its IP address and its source port.
#[derive(Debug, Clone, Copy, PartialEq, Eq, Hash, Structural)]
pub struct ClientAddr {
    pub ip: IpAddress,
    pub port: u16,
}

/// What a session keeps of an ephemeral socket: the data port it serves and
/// the number under which the socket is known.
#[derive(Debug, Clone, Copy, PartialEq, Eq, Structural)]
pub struct SessionSocket {
    pub proxy_port: u16,
    pub id: u64,
}

/// A source port of the client, seen on a data port.
#[derive(Debug, Clone, Copy, PartialEq, Eq, Structural)]
pub struct ClientPort {
    pub proxy_port: u16,
    pub client_port: u16,
}

/// Session information for a client, with one backend port for each data
/// port and protocol.
pub struct Session {
    pub target_ip: String,
    /// For each data port and protocol, the port of the backend.
    pub port_mappings: PortMap,
    /// The time of the last activity, in seconds.
    pub last_activity: u64,
    /// The ephemeral sockets, at most one for a data port.
    pub udp_sockets: Vec<SessionSocket>,
    /// The source ports seen, each once for a data port.
    pub client_ports: Vec<ClientPort>,
}

/// A session as contracts speak of it.
pub struct SessionView {
    pub target_ip: Seq<char>,
    pub port_mappings: Map<(u16, Protocol), u16>,
    pub last_activity: u64,
    pub udp_sockets: Seq<SessionSocket>,
    pub client_ports: Seq<ClientPort>,
}

impl View for Session {
    type V = SessionView;

    open spec fn view(&self) -> SessionView {
        SessionView {
            target_ip: self.target_ip@,
            port_mappings: self.port_mappings@,
            last_activity: self.last_activity,
            udp_sockets: self.udp_sockets@,
            client_ports: self.client_ports@,
        }
    }
}

/// A session that was just bound to a backend: no sockets, no source ports seen.
pub open spec fn fresh_session(
    target_ip: Seq<char>,
    port_mappings: Map<(u16, Protocol), u16>,
    now: u64,
) -> SessionView {
    SessionView {
        target_ip,
        port_mappings,
        last_activity: now,
        udp_sockets: Seq::empty(),
        client_ports: Seq::empty(),
    }
}

/// The port map of a single-port session: datagrams on `port` go to the same port.
pub open spec fn single_port_map(port: u16) -> Map<(u16, Protocol), u16> {
    Map::<(u16, Protocol), u16>::empty().insert((port, Protocol::Udp), port)
}

/// Whether a session with last activity at `last_activity` has been idle
/// for more than `timeout_seconds` at `now`.
pub open spec fn spec_timed_out(last_activity: u64, timeout_seconds: u64, now: u64) -> bool {
    now - last_activity > timeout_seconds
}

/// The socket that serves `proxy_port`: the first of them among `sockets`.
pub open spec fn spec_socket_for(sockets: Seq<SessionSocket>, proxy_port: u16) -> Option<
    SessionSocket,
>
    decreases sockets.len(),
{
    if sockets.len() == 0 {
        None
    } else if sockets[0].proxy_port == proxy_port {
        Some(sockets[0])
    } else {
        spec_socket_for(sockets.skip(1), proxy_port)
    }
}

/// The socket for a data port serves that port.
pub proof fn lemma_socket_for_port(sockets: Seq<SessionSocket>, proxy_port: u16)
    ensures
        spec_socket_for(sockets, proxy_port) matches Some(s) ==> s.proxy_port
            == proxy_port,
    decreases sockets.len(),
{
    if sockets.len() > 0 && sockets[0].proxy_port != proxy_port {
        lemma_socket_for_port(sockets.skip(1), proxy_port);
    }
}

/// A socket pushed for a data port without socket is then the socket for that port.
pub proof fn lemma_socket_for_push(sockets: Seq<SessionSocket>, proxy_port: u16, socket: SessionSocket)
    requires
        socket.proxy_port == proxy_port,
    ensures
        spec_socket_for(sockets, proxy_port) is None
            ==> spec_socket_for(sockets.push(socket), proxy_port) == Some(socket),
    decreases sockets.len(),
{
    if sockets.len() == 0 {
        assert(sockets.push(socket).skip(1) =~= Seq::<SessionSocket>::empty());
    } else if sockets[0].proxy_port == proxy_port {
    } else {
        lemma_socket_for_push(sockets.skip(1), proxy_port, socket);
        assert(sockets.push(socket).skip(1) =~= sockets.skip(1).push(socket));
    }
}

/// The sockets other than those that serve `proxy_port`.
pub open spec fn spec_without_port(sockets: Seq<SessionSocket>, proxy_port: u16) -> Seq<
    SessionSocket,
> {
    sockets.filter(|s: SessionSocket| s.proxy_port != proxy_port)
}

/// Whether the client was seen from `client_port` on `proxy_port`.
pub open spec fn spec_seen(ports: Seq<ClientPort>, proxy_port: u16, client_port: u16) -> bool {
    ports.contains(ClientPort { proxy_port, client_port })
}

/// The source ports with one more: `client_port` on `proxy_port`, unless it was seen already.
pub open spec fn spec_record(ports: Seq<ClientPort>, proxy_port: u16, client_port: u16) -> Seq<
    ClientPort,
> {
    if spec_seen(ports, proxy_port, client_port) {
        ports
    } else {
        ports.push(ClientPort { proxy_port, client_port })
    }
}

/// A table whose keys are listed, each once, has as many keys as are listed.
pub proof fn lemma_keys_count(table: Map<(u8, u128), SessionView>, keys: Seq<(u8, u128)>)
    requires
        forall|i: int, j: int| 0 <= i < j < keys.len() ==> keys[i] != keys[j],
        forall|i: int| 0 <= i < keys.len() ==> table.contains_key(#[trigger] keys[i]),
        forall|k: (u8, u128)| #[trigger] table.contains_key(k) ==> keys.contains(k),
    ensures
        table.dom().finite(),
        table.dom().len() == keys.len(),
{
    assert(keys.no_duplicates());
    assert(table.dom() =~= keys.to_set()) by {
        assert forall|k: (u8, u128)| table.dom().contains(k) <==> keys.to_set().contains(k) by {
            if keys.to_set().contains(k) {
                let i = choose|i: int| 0 <= i < keys.len() && keys[i] == k;
                assert(table.contains_key(keys[i]));
            }
        }
    }
    vstd::seq_lib::seq_to_set_is_finite(keys);
    keys.unique_seq_to_set();
}

/// A copy of a vector of plain values.
fn copy_vec<T: Copy>(v: &Vec<T>) -> (r: Vec<T>)
    ensures
        r@ == v@,
{
    let mut out: Vec<T> = Vec::new();
    let mut i: usize = 0;
    while i < v.len()
        invariant
            i <= v.len(),
            out@ == v@.take(i as int),
        decreases v.len() - i,
    {
        out.push(v[i]);
        assert(v@.take(i + 1) =~= v@.take(i as int).push(v@[i as int]));
        i += 1;
    }
    assert(v@.take(i as int) =~= v@);
    out
}

impl Clone for Session {
    fn clone(&self) -> (r: Self)
        ensures
            r@ == self@,
    {
        Session {
            target_ip: self.target_ip.clone(),
            port_mappings: self.port_mappings.clone(),
            last_activity: self.last_activity,
            udp_sockets: copy_vec(&self.udp_sockets),
            client_ports: copy_vec(&self.client_ports),
        }
    }
}

/// What became of a request for the ephemeral socket of a data port.
#[derive(Debug, Clone, Copy, PartialEq, Eq, Structural)]
pub struct SocketUse {
    /// The socket to send on.
    pub socket: SessionSocket,
    /// Whether the socket was registered by this request, so that it has
    /// yet to be bound and its receive loop started.
    pub created: bool,
    /// The client's source port, which was recorded.
    pub client_port: u16,
}

/// The answer to a request for the socket of a data port: the session's
/// socket for the port, or a socket numbered `fresh_id` that is created.
pub open spec fn spec_socket_use(
    session: SessionView,
    proxy_port: u16,
    client_port: u16,
    fresh_id: u64,
) -> SocketUse {
    match spec_socket_for(session.udp_sockets, proxy_port) {
        Some(socket) => SocketUse { socket, created: false, client_port },
        None => SocketUse {
            socket: SessionSocket { proxy_port, id: fresh_id },
            created: true,
            client_port,
        },
    }
}

/// The session after a request for the socket of a data port: the
/// client's source port is recorded, and a socket that was created is kept.
pub open spec fn spec_session_after_use(
    session: SessionView,
    proxy_port: u16,
    client_port: u16,
    fresh_id: u64,
) -> SessionView {
    SessionView {
        client_ports: spec_record(session.client_ports, proxy_port, client_port),
        udp_sockets: if spec_socket_for(session.udp_sockets, proxy_port) is Some {
            session.udp_sockets
        } else {
            session.udp_sockets.push(SessionSocket { proxy_port, id: fresh_id })
        },
        ..session
    }
}

/// The number of the next socket after one was handed out or not: one
/// more, as long as the numbers last.
pub open spec fn spec_next_id(next: u64, created: bool) -> u64 {
    if created && next < u64::MAX {
        (next + 1) as u64
    } else {
        next
    }
}

impl Session {
    /// Create a new session with a single port: datagrams on the
    /// target's port go to the same port of the target.
    pub fn new(target_addr: &TargetAddr, now: u64) -> (r: Self)
        ensures
            r@ == fresh_session(target_addr.ip@, single_port_map(target_addr.port), now),
    {
        let mut port_mappings = PortMap::new();
        port_mappings.insert(target_addr.port, Protocol::Udp, target_addr.port);
        Session {
            target_ip: target_addr.ip.clone(),
            port_mappings,
            last_activity: now,
            udp_sockets: Vec::new(),
            client_ports: Vec::new(),
        }
    }

    /// Create a new multi-port session.
    pub fn new_multi_port(target_ip: String, port_mappings: PortMap, now: u64) -> (r: Self)
        ensures
            r@ == fresh_session(target_ip@, port_mappings@, now),
    {
        Session {
            target_ip,
            port_mappings,
            last_activity: now,
            udp_sockets: Vec::new(),
            client_ports: Vec::new(),
        }
    }

    /// The socket that serves a data port.
    pub fn socket_for(&self, proxy_port: u16) -> (r: Option<SessionSocket>)
        ensures
            r == spec_socket_for(self@.udp_sockets, proxy_port),
    {
        let mut i: usize = 0;
        assert(self.udp_sockets@.skip(0) =~= self.udp_sockets@);
        while i < self.udp_sockets.len()
            invariant
                i <= self.udp_sockets.len(),
                spec_socket_for(self.udp_sockets@, proxy_port) == spec_socket_for(
                    self.udp_sockets@.skip(i as int),
                    proxy_port,
                ),
            decreases self.udp_sockets.len() - i,
        {
            assert(self.udp_sockets@.skip(i as int).skip(1) =~= self.udp_sockets@.skip(i + 1));
            if self.udp_sockets[i].proxy_port == proxy_port {
                return Some(self.udp_sockets[i]);
            }
            i += 1;
        }
        None
    }

    /// Whether the client was seen from `client_port` on `proxy_port`.
    pub fn has_client_port(&self, proxy_port: u16, client_port: u16) -> (r: bool)
        ensures
            r == spec_seen(self@.client_ports, proxy_port, client_port),
    {
        let wanted = ClientPort { proxy_port, client_port };
        let mut i: usize = 0;
        while i < self.client_ports.len()
            invariant
                i <= self.client_ports.len(),
                wanted == (ClientPort { proxy_port, client_port }),
                forall|j: int| 0 <= j < i ==> self.client_ports@[j] != wanted,
            decreases self.client_ports.len() - i,
        {
            if self.client_ports[i].proxy_port == proxy_port && self.client_ports[i].client_port
                == client_port {
                assert(self.client_ports@[i as int] == wanted);
                return true;
            }
            i += 1;
        }
        false
    }

    /// Get or create the ephemeral socket for a data port. The client's
    /// source port is recorded. If the session has a socket for the data
    /// port, that socket is the answer; otherwise a socket numbered
    /// `fresh_id` is registered, and the answer says that it was created.
    pub fn get_or_create_udp_socket(
        &mut self,
        proxy_port: u16,
        client_addr: ClientAddr,
        fresh_id: u64,
    ) -> (r: SocketUse)
        ensures
            r == spec_socket_use(old(self)@, proxy_port, client_addr.port, fresh_id),
            final(self)@ == spec_session_after_use(
                old(self)@,
                proxy_port,
                client_addr.port,
                fresh_id,
            ),
    {
        if !self.has_client_port(proxy_port, client_addr.port) {
            self.client_ports.push(ClientPort { proxy_port, client_port: client_addr.port });
        }
        match self.socket_for(proxy_port) {
            Some(socket) => SocketUse { socket, created: false, client_port: client_addr.port },
            None => {
                let socket = SessionSocket { proxy_port, id: fresh_id };
                self.udp_sockets.push(socket);
                SocketUse { socket, created: true, client_port: client_addr.port }
            },
        }
    }

    /// Shut down all sockets of this session: the session keeps none, and
    /// those it had are handed back to be signalled.
    pub fn shutdown_sockets(&mut self) -> (r: Vec<SessionSocket>)
        ensures
            r@ == old(self)@.udp_sockets,
            final(self)@ == (SessionView { udp_sockets: Seq::empty(), ..old(self)@ }),
    {
        let mut taken: Vec<SessionSocket> = Vec::new();
        std::mem::swap(&mut taken, &mut self.udp_sockets);
        taken
    }

    /// Get the target address for a data port and protocol.
    pub fn get_target_addr(&self, proxy_port: u16, protocol: Protocol) -> (r: Result<
        TargetAddr,
        AddrError,
    >)
        ensures
            match r {
                Ok(addr) => {
                    &&& self@.port_mappings.contains_key((proxy_port, protocol))
                    &&& addr.ip@ == self@.target_ip
                    &&& addr.port == self@.port_mappings[(proxy_port, protocol)]
                },
                Err(e) => {
                    &&& !self@.port_mappings.contains_key((proxy_port, protocol))
                    &&& e == AddrError::NoPortMapping { proxy_port, protocol }
                },
            },
    {
        match self.port_mappings.get(proxy_port, protocol) {
            Some(port) => Ok(TargetAddr { ip: self.target_ip.clone(), port }),
            None => Err(AddrError::NoPortMapping { proxy_port, protocol }),
        }
    }

    /// Update the time of the last activity.
    pub fn touch(&mut self, now: u64)
        ensures
            final(self)@ == (SessionView { last_activity: now, ..old(self)@ }),
    {
        self.last_activity = now;
    }

    /// Check if the session has timed out: whether at `now` it has been
    /// idle for more than `timeout_seconds`.
    pub fn is_timed_out(&self, timeout_seconds: u64, now: u64) -> (r: bool)
        ensures
            r == spec_timed_out(self@.last_activity, timeout_seconds, now),
    {
        now > self.last_activity && now - self.last_activity > timeout_seconds
    }

    /// The addresses that a datagram from the backend on `proxy_port` is
    /// delivered to: the client's address with each source port seen on that
    /// data port, each once.
    pub fn fan_out(&self, client_ip: IpAddress, proxy_port: u16) -> (r: Vec<ClientAddr>)
        ensures
            r@.no_duplicates(),
            forall|i: int| 0 <= i < r@.len() ==> (#[trigger] r@[i]).ip == client_ip,
            forall|port: u16|
                r@.contains(ClientAddr { ip: client_ip, port }) <==> spec_seen(
                    self@.client_ports,
                    proxy_port,
                    port,
                ),
    {
        let mut out: Vec<ClientAddr> = Vec::new();
        let mut i: usize = 0;
        while i < self.client_ports.len()
            invariant
                i <= self.client_ports.len(),
                out@.no_duplicates(),
                forall|k: int| 0 <= k < out@.len() ==> (#[trigger] out@[k]).ip == client_ip,
                forall|port: u16|
                    out@.contains(ClientAddr { ip: client_ip, port }) <==> self.client_ports@.take(
                        i as int,
                    ).contains(ClientPort { proxy_port, client_port: port }),
            decreases self.client_ports.len() - i,
        {
            let seen = self.client_ports[i];
            let ghost before = out@;
            let ghost prefix = self.client_ports@.take(i as int);
            let ghost next = self.client_ports@.take(i + 1);
            assert(next =~= prefix.push(seen));
            let mut added = false;
            if seen.proxy_port == proxy_port {
                let addr = ClientAddr { ip: client_ip, port: seen.client_port };
                if !contains_addr(&out, addr) {
                    out.push(addr);
                    added = true;
                }
            }
            proof {
                assert forall|port: u16|
                    out@.contains(ClientAddr { ip: client_ip, port }) <==> next.contains(
                        ClientPort { proxy_port, client_port: port },
                    ) by {
                    let a = ClientAddr { ip: client_ip, port };
                    let c = ClientPort { proxy_port, client_port: port };
                    if next.contains(c) {
                        let k = choose|k: int| 0 <= k < next.len() && next[k] == c;
                        if k < i {
                            assert(prefix[k] == c);
                            assert(prefix.contains(c));
                            assert(before.contains(a));
                            let m = choose|m: int| 0 <= m < before.len() && before[m] == a;
                            assert(out@[m] == a);
                        } else {
                            assert(seen == c);
                            if added {
                                assert(out@[out@.len() - 1] == a);
                            } else {
                                assert(before.contains(a));
                            }
                        }
                    }
                    if out@.contains(a) {
                        let m = choose|m: int| 0 <= m < out@.len() && out@[m] == a;
                        if m < before.len() {
                            assert(before[m] == a);
                            assert(before.contains(a));
                            assert(prefix.contains(c));
                            let k = choose|k: int| 0 <= k < prefix.len() && prefix[k] == c;
                            assert(next[k] == c);
                        } else {
                            assert(added);
                            assert(next[i as int] == c);
                        }
                    }
                }
            }
            i += 1;
        }
        assert(self.client_ports@.take(i as int) =~= self.client_ports@);
        out
    }
}

/// What happened at an ephemeral socket while its receive loop waited.
#[derive(Debug, Clone, Copy, PartialEq, Eq, Structural)]
pub enum ReceiveEvent {
    /// The socket was signalled to shut down.
    ShutdownSignalled,
    /// A datagram arrived from the backend.
    Datagram,
    /// The wait ended without a datagram.
    TimedOut,
    /// Receiving failed.
    Failed,
}

/// What the receive loop of an ephemeral socket does next.
#[derive(Debug)]
pub enum ReceiveAction {
    /// The loop ends.
    Stop,
    /// The datagram is sent to each of these addresses, then the loop goes on.
    Forward(Vec<ClientAddr>),
    /// The loop goes on.
    Continue,
}

impl SessionSocket {
    /// One step of the receive loop of this socket, which serves the client
    /// at `client_ip`. A shutdown signal or a failure ends the loop; a wait
    /// that timed out goes on; a datagram is delivered to the client's
    /// address with each source port that the client's current session has
    /// seen on the socket's data port, each once.
    pub fn receive_step(
        &self,
        sessions: &SessionManager,
        client_ip: IpAddress,
        event: ReceiveEvent,
    ) -> (r: ReceiveAction)
        ensures
            match event {
                ReceiveEvent::ShutdownSignalled => r is Stop,
                ReceiveEvent::Failed => r is Stop,
                ReceiveEvent::TimedOut => r is Continue,
                ReceiveEvent::Datagram => {
                    &&& r matches ReceiveAction::Forward(delivered)
                    &&& delivered@.no_duplicates()
                    &&& forall|i: int|
                        0 <= i < delivered@.len() ==> (#[trigger] delivered@[i]).ip == client_ip
                    &&& forall|port: u16|
                        delivered@.contains(ClientAddr { ip: client_ip, port }) <==> (
                        sessions.session_of(client_ip) matches Some(session) && spec_seen(
                            session.client_ports,
                            self.proxy_port,
                            port,
                        ))
                },
            },
    {
        match event {
            ReceiveEvent::ShutdownSignalled => ReceiveAction::Stop,
            ReceiveEvent::Failed => ReceiveAction::Stop,
            ReceiveEvent::TimedOut => ReceiveAction::Continue,
            ReceiveEvent::Datagram => ReceiveAction::Forward(
                sessions.fan_out(client_ip, self.proxy_port),
            ),
        }
    }
}

/// Whether `addr` is one of `addrs`.
fn contains_addr(addrs: &Vec<ClientAddr>, addr: ClientAddr) -> (r: bool)
    ensures
        r == addrs@.contains(addr),
{
    let mut i: usize = 0;
    while i < addrs.len()
        invariant
            i <= addrs.len(),
            forall|j: int| 0 <= j < i ==> addrs@[j] != addr,
        decreases addrs.len() - i,
    {
        if addrs[i].ip.v6 == addr.ip.v6 && addrs[i].ip.bits == addr.ip.bits && addrs[i].port
            == addr.port {
            assert(addrs@[i as int] == addr);
            return true;
        }
        i += 1;
    }
    false
}

/// A session that left the table, with the sockets it had.
pub struct ClosedSession {
    /// The key of the client.
    pub key: (u8, u128),
    /// The sockets to signal.
    pub sockets: Vec<SessionSocket>,
}

/// Session manager: the table of the active sessions, one for each client
/// IP address, whatever the client's source port.
pub struct SessionManager {
    sessions: DashMap<(u8, u128), Session>,
    timeout_seconds: u64,
    next_socket_id: u64,
}

impl SessionManager {
    /// The sessions of the table, under the keys of their clients.
    pub closed spec fn sessions(&self) -> Map<(u8, u128), SessionView> {
        session_entries(self.sessions)
    }

    /// The idle time after which a session is reclaimed, in seconds.
    pub closed spec fn timeout(&self) -> u64 {
        self.timeout_seconds
    }

    /// The number that the next ephemeral socket gets.
    pub closed spec fn next_id(&self) -> u64 {
        self.next_socket_id
    }

    /// The session of the client at `ip`, if it has one.
    pub open spec fn session_of(&self, ip: IpAddress) -> Option<SessionView> {
        if self.sessions().contains_key(ip.spec_key()) {
            Some(self.sessions()[ip.spec_key()])
        } else {
            None
        }
    }

    /// Create a new session manager, with no sessions.
    pub fn new(timeout_seconds: u64) -> (r: Self)
        ensures
            r.sessions() == Map::<(u8, u128), SessionView>::empty(),
            r.timeout() == timeout_seconds,
            r.next_id() == 0,
    {
        SessionManager { sessions: sessions_new(), timeout_seconds, next_socket_id: 0 }
    }

    /// Get an existing session for a client IP address.
    pub fn get(&self, client_ip: &IpAddress) -> (r: Option<Session>)
        ensures
            match r {
                Some(session) => self.session_of(*client_ip) == Some(session@),
                None => self.session_of(*client_ip) is None,
            },
    {
        sessions_get(&self.sessions, client_ip.key())
    }

    /// Get an existing session for a client address: the session of its IP address.
    pub fn get_by_addr(&self, client_addr: &ClientAddr) -> (r: Option<Session>)
        ensures
            match r {
                Some(session) => self.session_of(client_addr.ip) == Some(session@),
                None => self.session_of(client_addr.ip) is None,
            },
    {
        self.get(&client_addr.ip)
    }

    /// The sockets of the session under `key`, which is about to leave or be replaced.
    fn sockets_of(&self, key: (u8, u128)) -> (r: Vec<SessionSocket>)
        ensures
            r@ == if self.sessions().contains_key(key) {
                self.sessions()[key].udp_sockets
            } else {
                Seq::<SessionSocket>::empty()
            },
    {
        match sessions_get(&self.sessions, key) {
            Some(mut session) => session.shutdown_sockets(),
            None => Vec::new(),
        }
    }

    /// Update or create a session (the reset primitive), single port
    /// version. The client's session is replaced by a fresh one bound to the
    /// target; the sockets of the session it had are handed back to be shut down.
    pub fn upsert(&mut self, client_addr: ClientAddr, target_addr: &TargetAddr, now: u64) -> (r: Vec<
        SessionSocket,
    >)
        ensures
            final(self).timeout() == old(self).timeout(),
            final(self).next_id() == old(self).next_id(),
            final(self).sessions() == old(self).sessions().insert(
                client_addr.ip.spec_key(),
                fresh_session(target_addr.ip@, single_port_map(target_addr.port), now),
            ),
            r@ == match old(self).session_of(client_addr.ip) {
                Some(session) => session.udp_sockets,
                None => Seq::<SessionSocket>::empty(),
            },
    {
        let key = client_addr.ip.key();
        let closed = self.sockets_of(key);
        sessions_insert(&mut self.sessions, key, Session::new(target_addr, now));
        closed
    }

    /// Update or create a multi-port session. The client's session is
    /// replaced by a fresh one bound to the target; the sockets of the
    /// session it had are handed back to be shut down.
    pub fn upsert_multi_port(
        &mut self,
        client_addr: ClientAddr,
        target_ip: String,
        port_mappings: PortMap,
        now: u64,
    ) -> (r: Vec<SessionSocket>)
        ensures
            final(self).timeout() == old(self).timeout(),
            final(self).next_id() == old(self).next_id(),
            final(self).sessions() == old(self).sessions().insert(
                client_addr.ip.spec_key(),
                fresh_session(target_ip@, port_mappings@, now),
            ),
            r@ == match old(self).session_of(client_addr.ip) {
                Some(session) => session.udp_sockets,
                None => Seq::<SessionSocket>::empty(),
            },
    {
        let key = client_addr.ip.key();
        let closed = self.sockets_of(key);
        sessions_insert(
            &mut self.sessions,
            key,
            Session::new_multi_port(target_ip, port_mappings, now),
        );
        closed
    }

    /// Touch a session to update its last activity. A client without
    /// session is left without one.
    pub fn touch(&mut self, client_ip: &IpAddress, now: u64)
        ensures
            final(self).timeout() == old(self).timeout(),
            final(self).next_id() == old(self).next_id(),
            final(self).sessions() == match old(self).session_of(*client_ip) {
                Some(session) => old(self).sessions().insert(
                    client_ip.spec_key(),
                    SessionView { last_activity: now, ..session },
                ),
                None => old(self).sessions(),
            },
    {
        let key = client_ip.key();
        if let Some(mut session) = sessions_get(&self.sessions, key) {
            session.touch(now);
            sessions_insert(&mut self.sessions, key, session);
        }
    }

    /// Touch a session by client address: that of its IP address.
    pub fn touch_by_addr(&mut self, client_addr: &ClientAddr, now: u64)
        ensures
            final(self).timeout() == old(self).timeout(),
            final(self).next_id() == old(self).next_id(),
            final(self).sessions() == match old(self).session_of(client_addr.ip) {
                Some(session) => old(self).sessions().insert(
                    client_addr.ip.spec_key(),
                    SessionView { last_activity: now, ..session },
                ),
                None => old(self).sessions(),
            },
    {
        self.touch(&client_addr.ip, now);
    }

    /// Get the number of active sessions: the number of clients that have one.
    pub fn count(&self) -> (r: usize)
        ensures
            self.sessions().dom().finite(),
            r == self.sessions().dom().len(),
    {
        let keys = sessions_keys(&self.sessions);
        proof {
            lemma_keys_count(self.sessions(), keys@);
        }
        keys.len()
    }

    /// Get or create the ephemeral socket of a client's session for a data
    /// port, recording the client's source port. A client without session
    /// gets nothing. A socket that is created takes the next number.
    pub fn get_or_create_udp_socket(&mut self, client_addr: ClientAddr, proxy_port: u16) -> (r:
        Option<SocketUse>)
        ensures
            final(self).timeout() == old(self).timeout(),
            match old(self).session_of(client_addr.ip) {
                None => {
                    &&& r is None
                    &&& final(self).sessions() == old(self).sessions()
                    &&& final(self).next_id() == old(self).next_id()
                },
                Some(session) => {
                    &&& r == Some(
                        spec_socket_use(
                            session,
                            proxy_port,
                            client_addr.port,
                            old(self).next_id(),
                        ),
                    )
                    &&& final(self).sessions() == old(self).sessions().insert(
                        client_addr.ip.spec_key(),
                        spec_session_after_use(
                            session,
                            proxy_port,
                            client_addr.port,
                            old(self).next_id(),
                        ),
                    )
                    &&& final(self).next_id() == spec_next_id(
                        old(self).next_id(),
                        spec_socket_for(session.udp_sockets, proxy_port) is None,
                    )
                },
            },
    {
        let key = client_addr.ip.key();
        match sessions_get(&self.sessions, key) {
            Some(mut session) => {
                let used = session.get_or_create_udp_socket(
                    proxy_port,
                    client_addr,
                    self.next_socket_id,
                );
                if used.created && self.next_socket_id < u64::MAX {
                    self.next_socket_id = self.next_socket_id + 1;
                }
                sessions_insert(&mut self.sessions, key, session);
                Some(used)
            },
            None => None,
        }
    }

    /// Forgets the ephemeral socket of a client's session for a data port,
    /// for a socket that could not be bound.
    pub fn forget_udp_socket(&mut self, client_ip: &IpAddress, proxy_port: u16)
        ensures
            final(self).timeout() == old(self).timeout(),
            final(self).next_id() == old(self).next_id(),
            final(self).sessions() == match old(self).session_of(*client_ip) {
                Some(session) => old(self).sessions().insert(
                    client_ip.spec_key(),
                    SessionView {
                        udp_sockets: spec_without_port(session.udp_sockets, proxy_port),
                        ..session
                    },
                ),
                None => old(self).sessions(),
            },
    {
        let key = client_ip.key();
        if let Some(mut session) = sessions_get(&self.sessions, key) {
            let ghost pred = |s: SessionSocket| s.proxy_port != proxy_port;
            let mut kept: Vec<SessionSocket> = Vec::new();
            let mut i: usize = 0;
            assert(kept@ =~= session.udp_sockets@.take(0).filter(pred)) by {
                reveal_with_fuel(Seq::filter, 2);
            }
            while i < session.udp_sockets.len()
                invariant
                    i <= session.udp_sockets.len(),
                    pred == |s: SessionSocket| s.proxy_port != proxy_port,
                    kept@ == session.udp_sockets@.take(i as int).filter(pred),
                decreases session.udp_sockets.len() - i,
            {
                let ghost next = session.udp_sockets@.take(i + 1);
                assert(next.drop_last() =~= session.udp_sockets@.take(i as int));
                reveal_with_fuel(Seq::filter, 2);
                if session.udp_sockets[i].proxy_port != proxy_port {
                    kept.push(session.udp_sockets[i]);
                }
                i += 1;
            }
            assert(session.udp_sockets@.take(i as int) =~= session.udp_sockets@);
            session.udp_sockets = kept;
            sessions_insert(&mut self.sessions, key, session);
        }
    }

    /// The addresses that a datagram from the backend is delivered to,
    /// for the ephemeral socket of the client at `client_ip` on `proxy_port`:
    /// the client's address with each source port that its current session
    /// has seen on that data port, each once; none without a session.
    pub fn fan_out(&self, client_ip: IpAddress, proxy_port: u16) -> (r: Vec<ClientAddr>)
        ensures
            r@.no_duplicates(),
            forall|i: int| 0 <= i < r@.len() ==> (#[trigger] r@[i]).ip == client_ip,
            forall|port: u16|
                r@.contains(ClientAddr { ip: client_ip, port }) <==> (self.session_of(client_ip)
                    matches Some(session) && spec_seen(session.client_ports, proxy_port, port)),
    {
        match self.get(&client_ip) {
            Some(session) => session.fan_out(client_ip, proxy_port),
            None => Vec::new(),
        }
    }

    /// Clear all sessions (called during shutdown). The table is left
    /// empty; every session it held is handed back with its sockets. To
    /// signal the sockets before the sessions are dropped, ask `held` first.
    pub fn clear_all(&mut self) -> (r: Vec<ClosedSession>)
        ensures
            final(self).timeout() == old(self).timeout(),
            final(self).next_id() == old(self).next_id(),
            final(self).sessions() == Map::<(u8, u128), SessionView>::empty(),
            Self::names(old(self).sessions(), r@, true, old(self).timeout(), 0),
    {
        let closed = self.remove_where(true, 0);
        assert(self.sessions() =~= Map::<(u8, u128), SessionView>::empty());
        closed
    }

    /// One sweep of the reclaimer at time `now`: every session that has
    /// been idle for more than the timeout leaves the table and is handed
    /// back with its sockets; every other session stays as it is. To signal
    /// the sockets before the sessions are removed, ask `expired` first.
    pub fn cleanup(&mut self, now: u64) -> (r: Vec<ClosedSession>)
        ensures
            final(self).timeout() == old(self).timeout(),
            final(self).next_id() == old(self).next_id(),
            forall|k: (u8, u128)| #[trigger]
                final(self).sessions().contains_key(k) <==> (old(self).sessions().contains_key(k)
                    && !spec_timed_out(
                    old(self).sessions()[k].last_activity,
                    old(self).timeout(),
                    now,
                )),
            forall|k: (u8, u128)| #[trigger]
                final(self).sessions().contains_key(k) ==> final(self).sessions()[k] == old(
                    self,
                ).sessions()[k],
            Self::names(old(self).sessions(), r@, false, old(self).timeout(), now),
    {
        self.remove_where(false, now)
    }

    /// Whether a sweep removes a session: every session where `all` is
    /// set, else the sessions that are timed out at `now`.
    pub open spec fn leaves(session: SessionView, all: bool, timeout: u64, now: u64) -> bool {
        all || spec_timed_out(session.last_activity, timeout, now)
    }

    /// Whether `named` names the sessions that `leaves` names, each once
    /// and with the sockets it holds.
    pub open spec fn names(
        sessions: Map<(u8, u128), SessionView>,
        named: Seq<ClosedSession>,
        all: bool,
        timeout: u64,
        now: u64,
    ) -> bool {
        &&& forall|i: int, j: int|
            0 <= i < j < named.len() ==> (#[trigger] named[i]).key != (#[trigger] named[j]).key
        &&& forall|i: int|
            0 <= i < named.len() ==> sessions.contains_key((#[trigger] named[i]).key)
                && Self::leaves(sessions[named[i].key], all, timeout, now) && named[i].sockets@
                == sessions[named[i].key].udp_sockets
        &&& forall|k: (u8, u128)| #[trigger]
            sessions.contains_key(k) && Self::leaves(sessions[k], all, timeout, now)
                ==> exists|i: int| 0 <= i < named.len() && (#[trigger] named[i]).key == k
    }

    /// The sessions that have been idle for more than the timeout at
    /// `now`, each with the sockets it holds. The table stays as it is: the
    /// sockets can be signalled before a sweep removes the sessions.
    pub fn expired(&self, now: u64) -> (r: Vec<ClosedSession>)
        ensures
            Self::names(self.sessions(), r@, false, self.timeout(), now),
    {
        self.list_where(false, now)
    }

    /// All sessions, each with the sockets it holds. The table stays as
    /// it is: the sockets can be signalled before the table is cleared.
    pub fn held(&self) -> (r: Vec<ClosedSession>)
        ensures
            Self::names(self.sessions(), r@, true, self.timeout(), 0),
    {
        self.list_where(true, 0)
    }

    /// Lists the sessions that `leaves` names.
    fn list_where(&self, all: bool, now: u64) -> (r: Vec<ClosedSession>)
        ensures
            Self::names(self.sessions(), r@, all, self.timeout(), now),
    {
        let ghost table = self.sessions();
        let timeout = self.timeout_seconds;
        let keys = sessions_keys(&self.sessions);
        let mut named: Vec<ClosedSession> = Vec::new();
        let mut i: usize = 0;
        while i < keys.len()
            invariant
                i <= keys.len(),
                table == self.sessions(),
                timeout == self.timeout(),
                forall|a: int, b: int| 0 <= a < b < keys@.len() ==> keys@[a] != keys@[b],
                forall|a: int| 0 <= a < keys@.len() ==> table.contains_key(#[trigger] keys@[a]),
                forall|k: (u8, u128)| #[trigger] table.contains_key(k) ==> keys@.contains(k),
                forall|a: int, b: int|
                    0 <= a < b < named@.len() ==> (#[trigger] named@[a]).key != (
                    #[trigger] named@[b]).key,
                forall|a: int|
                    0 <= a < named@.len() ==> keys@.take(i as int).contains(
                        (#[trigger] named@[a]).key,
                    ) && table.contains_key(named@[a].key) && Self::leaves(
                        table[named@[a].key],
                        all,
                        timeout,
                        now,
                    ) && named@[a].sockets@ == table[named@[a].key].udp_sockets,
                forall|k: (u8, u128)| #[trigger]
                    keys@.take(i as int).contains(k) && Self::leaves(table[k], all, timeout, now)
                        ==> exists|a: int| 0 <= a < named@.len() && (#[trigger] named@[a]).key == k,
            decreases keys.len() - i,
        {
            let key = keys[i];
            let ghost done = keys@.take(i as int);
            let ghost next = keys@.take(i + 1);
            let ghost named_before = named@;
            assert(next =~= done.push(key));
            assert(!done.contains(key)) by {
                if done.contains(key) {
                    let a = choose|a: int| 0 <= a < done.len() && done[a] == key;
                    assert(keys@[a] != keys@[i as int]);
                }
            }
            assert(table.contains_key(keys@[i as int]));
            let mut added = false;
            if let Some(mut session) = sessions_get(&self.sessions, key) {
                if all || session.is_timed_out(timeout, now) {
                    let sockets = session.shutdown_sockets();
                    named.push(ClosedSession { key, sockets });
                    added = true;
                }
            }
            proof {
                assert(added == Self::leaves(table[key], all, timeout, now));
                assert forall|k: (u8, u128)| next.contains(k) <==> (done.contains(k) || k == key) by {
                    if next.contains(k) {
                        let a = choose|a: int| 0 <= a < next.len() && next[a] == k;
                        if a < i {
                            assert(done[a] == k);
                        }
                    }
                    if done.contains(k) {
                        let a = choose|a: int| 0 <= a < done.len() && done[a] == k;
                        assert(next[a] == k);
                    }
                    if k == key {
                        assert(next[i as int] == k);
                    }
                }
                assert forall|a: int| 0 <= a < named@.len() implies next.contains(
                    (#[trigger] named@[a]).key,
                ) && table.contains_key(named@[a].key) && Self::leaves(
                    table[named@[a].key],
                    all,
                    timeout,
                    now,
                ) && named@[a].sockets@ == table[named@[a].key].udp_sockets by {
                    if a < named_before.len() {
                        assert(named@[a] == named_before[a]);
                        assert(done.contains(named_before[a].key));
                    }
                }
                assert forall|a: int, b: int| 0 <= a < b < named@.len() implies (
                #[trigger] named@[a]).key != (#[trigger] named@[b]).key by {
                    assert(named@[a] == named_before[a]);
                    if b == named_before.len() {
                        assert(done.contains(named_before[a].key));
                    } else {
                        assert(named@[b] == named_before[b]);
                    }
                }
                assert forall|k: (u8, u128)| #[trigger]
                    next.contains(k) && Self::leaves(table[k], all, timeout, now) implies exists|
                    a: int,
                | 0 <= a < named@.len() && (#[trigger] named@[a]).key == k by {
                    if k == key {
                        assert(named@[named@.len() - 1].key == k);
                    } else {
                        assert(done.contains(k));
                        let a = choose|a: int|
                            0 <= a < named_before.len() && (#[trigger] named_before[a]).key == k;
                        assert(named@[a] == named_before[a]);
                    }
                }
            }
            i += 1;
        }
        proof {
            assert(keys@.take(i as int) =~= keys@);
        }
        named
    }

    /// Removes the sessions that `leaves` names and hands them back.
    fn remove_where(&mut self, all: bool, now: u64) -> (r: Vec<ClosedSession>)
        ensures
            final(self).timeout() == old(self).timeout(),
            final(self).next_id() == old(self).next_id(),
            forall|k: (u8, u128)| #[trigger]
                final(self).sessions().contains_key(k) <==> (old(self).sessions().contains_key(k)
                    && !Self::leaves(old(self).sessions()[k], all, old(self).timeout(), now)),
            forall|k: (u8, u128)| #[trigger]
                final(self).sessions().contains_key(k) ==> final(self).sessions()[k] == old(
                    self,
                ).sessions()[k],
            Self::names(old(self).sessions(), r@, all, old(self).timeout(), now),
    {
        let ghost before = self.sessions();
        let timeout = self.timeout_seconds;
        let keys = sessions_keys(&self.sessions);
        let mut closed: Vec<ClosedSession> = Vec::new();
        let mut i: usize = 0;
        while i < keys.len()
            invariant
                i <= keys.len(),
                self.timeout_seconds == timeout,
                self.next_socket_id == old(self).next_socket_id,
                before == old(self).sessions(),
                timeout == old(self).timeout(),
                forall|a: int, b: int| 0 <= a < b < keys@.len() ==> keys@[a] != keys@[b],
                forall|a: int| 0 <= a < keys@.len() ==> before.contains_key(#[trigger] keys@[a]),
                forall|k: (u8, u128)| #[trigger] before.contains_key(k) ==> keys@.contains(k),
                // the table: what was there, less the sessions that left among the keys done
                forall|k: (u8, u128)| #[trigger]
                    self.sessions().contains_key(k) <==> (before.contains_key(k) && !(
                    keys@.take(i as int).contains(k) && Self::leaves(before[k], all, timeout, now))),
                forall|k: (u8, u128)| #[trigger]
                    self.sessions().contains_key(k) ==> self.sessions()[k] == before[k],
                // what was handed back: the sessions that left among the keys done
                forall|a: int, b: int|
                    0 <= a < b < closed@.len() ==> (#[trigger] closed@[a]).key != (
                    #[trigger] closed@[b]).key,
                forall|a: int|
                    0 <= a < closed@.len() ==> keys@.take(i as int).contains(
                        (#[trigger] closed@[a]).key,
                    ) && before.contains_key(closed@[a].key) && Self::leaves(
                        before[closed@[a].key],
                        all,
                        timeout,
                        now,
                    ) && closed@[a].sockets@ == before[closed@[a].key].udp_sockets,
                forall|k: (u8, u128)| #[trigger]
                    keys@.take(i as int).contains(k) && Self::leaves(before[k], all, timeout, now)
                        ==> exists|a: int| 0 <= a < closed@.len() && (#[trigger] closed@[a]).key == k,
            decreases keys.len() - i,
        {
            let key = keys[i];
            let ghost done = keys@.take(i as int);
            let ghost next = keys@.take(i + 1);
            let ghost table = self.sessions();
            let ghost closed_before = closed@;
            assert(next =~= done.push(key));
            assert(!done.contains(key)) by {
                if done.contains(key) {
                    let a = choose|a: int| 0 <= a < done.len() && done[a] == key;
                    assert(keys@[a] != keys@[i as int]);
                }
            }
            assert(before.contains_key(keys@[i as int]));
            assert(table.contains_key(key));
            let mut removed = false;
            if let Some(mut session) = sessions_get(&self.sessions, key) {
                if all || session.is_timed_out(timeout, now) {
                    let sockets = session.shutdown_sockets();
                    sessions_remove(&mut self.sessions, key);
                    closed.push(ClosedSession { key, sockets });
                    removed = true;
                }
            }
            proof {
                assert(removed == Self::leaves(before[key], all, timeout, now));
                assert forall|k: (u8, u128)| next.contains(k) <==> (done.contains(k) || k == key) by {
                    if next.contains(k) {
                        let a = choose|a: int| 0 <= a < next.len() && next[a] == k;
                        if a < i {
                            assert(done[a] == k);
                        }
                    }
                    if done.contains(k) {
                        let a = choose|a: int| 0 <= a < done.len() && done[a] == k;
                        assert(next[a] == k);
                    }
                    if k == key {
                        assert(next[i as int] == k);
                    }
                }
                assert forall|a: int| 0 <= a < closed@.len() implies next.contains(
                    (#[trigger] closed@[a]).key,
                ) && before.contains_key(closed@[a].key) && Self::leaves(
                    before[closed@[a].key],
                    all,
                    timeout,
                    now,
                ) && closed@[a].sockets@ == before[closed@[a].key].udp_sockets by {
                    if a < closed_before.len() {
                        assert(closed@[a] == closed_before[a]);
                        assert(done.contains(closed_before[a].key));
                    }
                }
                assert forall|a: int, b: int| 0 <= a < b < closed@.len() implies (
                #[trigger] closed@[a]).key != (#[trigger] closed@[b]).key by {
                    if b == closed_before.len() {
                        assert(closed@[a] == closed_before[a]);
                        assert(done.contains(closed_before[a].key));
                    } else {
                        assert(closed@[a] == closed_before[a]);
                        assert(closed@[b] == closed_before[b]);
                    }
                }
                assert forall|k: (u8, u128)| #[trigger]
                    next.contains(k) && Self::leaves(before[k], all, timeout, now) implies exists|
                    a: int,
                | 0 <= a < closed@.len() && (#[trigger] closed@[a]).key == k by {
                    if k == key {
                        assert(closed@[closed@.len() - 1].key == k);
                    } else {
                        assert(done.contains(k));
                        let a = choose|a: int|
                            0 <= a < closed_before.len() && (#[trigger] closed_before[a]).key == k;
                        assert(closed@[a] == closed_before[a]);
                    }
                }
            }
            i += 1;
        }
        proof {
            assert(keys@.take(i as int) =~= keys@);
        }
        closed
    }
}

} // verus!
