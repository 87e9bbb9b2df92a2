//! Laws of the director: what holds of its token cache, its session table
//! and its backend selector, whatever the inputs.

use vstd::prelude::*;
use crate::k8s_client::Resource;
use crate::load_balancer::{
    is_best, is_least, none_addressed, none_with_capacity, spec_available, spec_capacity,
    spec_count, spec_sessions,
};
use crate::proxy::{DataProxy, EndpointView};
use crate::session::{
    fresh_session, lemma_socket_for_port, lemma_socket_for_push, spec_seen,
    spec_session_after_use, spec_socket_for, spec_socket_use, spec_timed_out, ClientAddr,
    ClientPort, ClosedSession, IpAddress, SessionManager, SessionSocket, SessionView,
};
use crate::token_cache::{TokenCache, TokenTarget};

verus! {

/// Minting keeps tokens apart. When a token is stored that the cache did not
/// hold, it is bound to the new target alone, and every token that was valid
/// before is another token and still stands for its own target.
pub proof fn lemma_mint_keeps_tokens_apart(
    before: TokenCache,
    after: TokenCache,
    token: Seq<char>,
    target: TokenTarget,
    now: u64,
    other: Seq<char>,
)
    requires
        after.ttl() == before.ttl(),
        after.holds(token) == Some((target, now)),
        forall|o: Seq<char>| o != token ==> #[trigger] after.holds(o) == before.kept_at(o, now),
        before.holds(token) is None,
        before.live_at(other, now) is Some,
    ensures
        other != token,
        after.live_at(other, now) == before.live_at(other, now),
{
    assert(after.holds(other) == before.kept_at(other, now));
}

/// A token expires. Once the lifetime has passed since a token was minted,
/// a lookup of it finds nothing, at that time and at any later time.
pub proof fn lemma_token_expires(
    cache: TokenCache,
    token: Seq<char>,
    target: TokenTarget,
    minted_at: u64,
    now: u64,
)
    requires
        cache.holds(token) == Some((target, minted_at)),
        now >= minted_at + cache.ttl(),
    ensures
        cache.live_at(token, now) is None,
{
}

/// A token that the cache does not hold is never found.
pub proof fn lemma_unknown_token_absent(cache: TokenCache, token: Seq<char>, now: u64)
    requires
        cache.holds(token) is None,
    ensures
        cache.live_at(token, now) is None,
{
}

/// Different addresses have different keys in the session table.
pub proof fn lemma_key_identifies_ip(a: IpAddress, b: IpAddress)
    ensures
        a.spec_key() == b.spec_key() <==> a == b,
{
}

/// A session belongs to an IP address. Two client addresses with the same
/// IP address have the same session, whatever their source ports.
pub proof fn lemma_session_identity_by_ip(manager: SessionManager, a: ClientAddr, b: ClientAddr)
    requires
        a.ip == b.ip,
    ensures
        manager.session_of(a.ip) == manager.session_of(b.ip),
{
}

/// A reset is whole. After the client's session was replaced, the client has
/// the fresh session bound to the new target, which keeps none of the old
/// sockets, and every other client has the session it had.
pub proof fn lemma_reset_is_whole(
    before: SessionManager,
    after: SessionManager,
    client: IpAddress,
    session: SessionView,
    other: IpAddress,
)
    requires
        after.sessions() == before.sessions().insert(client.spec_key(), session),
        session.udp_sockets == Seq::<SessionSocket>::empty(),
    ensures
        after.session_of(client) == Some(session),
        after.session_of(client)->0.udp_sockets.len() == 0,
        other != client ==> after.session_of(other) == before.session_of(other),
{
    lemma_key_identifies_ip(client, other);
}

/// A reset keeps the count of sessions or adds one. After the client's
/// session was replaced or installed in a table of finitely many sessions,
/// the table has as many sessions as before if the client had one, and one
/// more if it had none.
pub proof fn lemma_reset_count(
    before: SessionManager,
    after: SessionManager,
    client: IpAddress,
    session: SessionView,
)
    requires
        before.sessions().dom().finite(),
        after.sessions() == before.sessions().insert(client.spec_key(), session),
    ensures
        after.sessions().dom().finite(),
        after.sessions().dom().len() == if before.session_of(client) is Some {
            before.sessions().dom().len()
        } else {
            before.sessions().dom().len() + 1
        },
{
    assert(after.sessions().dom() =~= before.sessions().dom().insert(client.spec_key()));
}

/// Fan-out is complete and exact. Where the addresses that a datagram is
/// delivered to hold no address twice and hold the client's address with
/// exactly the source ports seen, every source port seen is delivered to at
/// exactly one position, and no other address is delivered to.
pub proof fn lemma_fan_out_exactly_once(
    delivered: Seq<ClientAddr>,
    client_ip: IpAddress,
    proxy_port: u16,
    session: SessionView,
    port: u16,
)
    requires
        delivered.no_duplicates(),
        forall|i: int| 0 <= i < delivered.len() ==> (#[trigger] delivered[i]).ip == client_ip,
        forall|p: u16|
            delivered.contains(ClientAddr { ip: client_ip, port: p }) <==> spec_seen(
                session.client_ports,
                proxy_port,
                p,
            ),
    ensures
        spec_seen(session.client_ports, proxy_port, port) ==> exists|i: int|
            {
                &&& 0 <= i < delivered.len()
                &&& #[trigger] delivered[i] == (ClientAddr { ip: client_ip, port })
                &&& forall|j: int|
                    0 <= j < delivered.len() && delivered[j] == delivered[i] ==> j == i
            },
        forall|i: int|
            0 <= i < delivered.len() ==> spec_seen(
                session.client_ports,
                proxy_port,
                (#[trigger] delivered[i]).port,
            ),
{
    if spec_seen(session.client_ports, proxy_port, port) {
        let addr = ClientAddr { ip: client_ip, port };
        assert(delivered.contains(addr));
        let i = choose|i: int| 0 <= i < delivered.len() && delivered[i] == addr;
        assert(delivered[i] == addr);
    }
    assert forall|i: int| 0 <= i < delivered.len() implies spec_seen(
        session.client_ports,
        proxy_port,
        (#[trigger] delivered[i]).port,
    ) by {
        let a = delivered[i];
        assert(a == ClientAddr { ip: client_ip, port: a.port });
        assert(delivered.contains(ClientAddr { ip: client_ip, port: a.port }));
    }
}

/// The least-sessions choice has the fewest sessions: no candidate with an
/// address has fewer, and the choice is the only candidate of which this and
/// being first among equals holds.
pub proof fn lemma_least_sessions_minimum(
    counts: Map<Seq<char>, usize>,
    resources: Seq<Resource>,
    address_path: Seq<char>,
    address_type: Option<Seq<char>>,
    i: int,
    j: int,
)
    requires
        is_least(counts, resources, address_path, address_type, i),
        0 <= j < resources.len(),
    ensures
        spec_sessions(counts, resources[j], address_path, address_type) matches Some(c)
            ==> spec_sessions(counts, resources[i], address_path, address_type)->0 <= c,
        is_least(counts, resources, address_path, address_type, j) ==> j == i,
        !none_addressed(counts, resources, address_path, address_type),
{
    let si = spec_sessions(counts, resources[i], address_path, address_type);
    let sj = spec_sessions(counts, resources[j], address_path, address_type);
    if is_least(counts, resources, address_path, address_type, j) {
        if j < i {
            assert(sj is Some ==> si->0 < sj->0);
            assert(si is Some ==> sj->0 <= si->0);
        } else if i < j {
            assert(si is Some ==> sj->0 < si->0);
            assert(sj is Some ==> si->0 <= sj->0);
        }
    }
}

/// The label-arithmetic choice has capacity: what is available of it is
/// more than nothing, no candidate has more, and where no candidate has
/// capacity there is no choice.
pub proof fn lemma_label_arithmetic_capacity(
    counts: Map<Seq<char>, usize>,
    resources: Seq<Resource>,
    address_path: Seq<char>,
    address_type: Option<Seq<char>>,
    current_label: Seq<char>,
    max_label: Seq<char>,
    overlap: i64,
    i: int,
    j: int,
)
    requires
        is_best(
            counts,
            resources,
            address_path,
            address_type,
            current_label,
            max_label,
            overlap,
            i,
        ),
        0 <= j < resources.len(),
    ensures
        spec_available(
            counts,
            resources[i],
            address_path,
            address_type,
            current_label,
            max_label,
            overlap,
        ) matches Some(chosen) && chosen > 0,
        spec_available(
            counts,
            resources[j],
            address_path,
            address_type,
            current_label,
            max_label,
            overlap,
        ) matches Some(a) ==> a > 0 && a <= spec_available(
            counts,
            resources[i],
            address_path,
            address_type,
            current_label,
            max_label,
            overlap,
        )->0,
        !none_with_capacity(
            counts,
            resources,
            address_path,
            address_type,
            current_label,
            max_label,
            overlap,
        ),
{
    let ci = spec_capacity(
        counts,
        resources[i],
        address_path,
        address_type,
        current_label,
        max_label,
        overlap,
    );
    let cj = spec_capacity(
        counts,
        resources[j],
        address_path,
        address_type,
        current_label,
        max_label,
        overlap,
    );
    assert(ci is Some);
    assert(cj is Some ==> !crate::load_balancer::comes_before(cj->0, ci->0));
}

/// The socket that is handed out is the socket that is kept. After a request
/// for the socket of a data port, the session's socket for that port is the
/// one that the request was answered with, and it serves that port.
pub proof fn lemma_socket_use_is_kept(
    session: SessionView,
    proxy_port: u16,
    client_port: u16,
    fresh_id: u64,
)
    ensures
        spec_socket_for(
            spec_session_after_use(session, proxy_port, client_port, fresh_id).udp_sockets,
            proxy_port,
        ) == Some(spec_socket_use(session, proxy_port, client_port, fresh_id).socket),
        spec_socket_use(session, proxy_port, client_port, fresh_id).socket.proxy_port == proxy_port,
        spec_seen(
            spec_session_after_use(session, proxy_port, client_port, fresh_id).client_ports,
            proxy_port,
            client_port,
        ),
{
    lemma_socket_for_port(session.udp_sockets, proxy_port);
    lemma_socket_for_push(
        session.udp_sockets,
        proxy_port,
        SessionSocket { proxy_port, id: fresh_id },
    );
    let wanted = ClientPort { proxy_port, client_port };
    if !spec_seen(session.client_ports, proxy_port, client_port) {
        let after = session.client_ports.push(wanted);
        assert(after[after.len() - 1] == wanted);
    }
}

/// Idle sessions are reclaimed. After a sweep at `now` that removed the
/// sessions idle for more than the timeout and handed them back, a session
/// that was idle that long is gone from the table and is among those handed
/// back, with the sockets it had; a session that was not is still there.
pub proof fn lemma_idle_session_reclaimed(
    before: SessionManager,
    after: SessionManager,
    closed: Seq<ClosedSession>,
    now: u64,
    key: (u8, u128),
)
    requires
        before.sessions().contains_key(key),
        forall|k: (u8, u128)| #[trigger]
            after.sessions().contains_key(k) <==> (before.sessions().contains_key(k)
                && !spec_timed_out(before.sessions()[k].last_activity, before.timeout(), now)),
        forall|k: (u8, u128)| #[trigger]
            after.sessions().contains_key(k) ==> after.sessions()[k] == before.sessions()[k],
        forall|i: int|
            0 <= i < closed.len() ==> before.sessions().contains_key((#[trigger] closed[i]).key)
                && closed[i].sockets@ == before.sessions()[closed[i].key].udp_sockets,
        forall|k: (u8, u128)| #[trigger]
            before.sessions().contains_key(k) && spec_timed_out(
                before.sessions()[k].last_activity,
                before.timeout(),
                now,
            ) ==> exists|i: int| 0 <= i < closed.len() && (#[trigger] closed[i]).key == k,
    ensures
        now - before.sessions()[key].last_activity > before.timeout() ==> {
            &&& !after.sessions().contains_key(key)
            &&& exists|i: int|
                0 <= i < closed.len() && (#[trigger] closed[i]).key == key && closed[i].sockets@
                    == before.sessions()[key].udp_sockets
        },
        now - before.sessions()[key].last_activity <= before.timeout() ==> {
            &&& after.sessions().contains_key(key)
            &&& after.sessions()[key] == before.sessions()[key]
        },
{
    if spec_timed_out(before.sessions()[key].last_activity, before.timeout(), now) {
        assert(!after.sessions().contains_key(key));
        let i = choose|i: int| 0 <= i < closed.len() && (#[trigger] closed[i]).key == key;
        assert(closed[i].sockets@ == before.sessions()[key].udp_sockets);
    } else {
        assert(after.sessions().contains_key(key));
    }
}

/// Sockets can be signalled before their sessions are removed. Where the
/// idle sessions were named before a sweep at the same time, every session
/// that the sweep removes is among those named, with the sockets it held, and
/// every session named is removed.
pub proof fn lemma_named_before_removed(
    before: SessionManager,
    after: SessionManager,
    named: Seq<ClosedSession>,
    now: u64,
    key: (u8, u128),
)
    requires
        SessionManager::names(before.sessions(), named, false, before.timeout(), now),
        forall|k: (u8, u128)| #[trigger]
            after.sessions().contains_key(k) <==> (before.sessions().contains_key(k)
                && !spec_timed_out(before.sessions()[k].last_activity, before.timeout(), now)),
    ensures
        before.sessions().contains_key(key) && !after.sessions().contains_key(key) ==> exists|
            i: int,
        |
            0 <= i < named.len() && (#[trigger] named[i]).key == key && named[i].sockets@
                == before.sessions()[key].udp_sockets,
        forall|i: int|
            0 <= i < named.len() ==> before.sessions().contains_key((#[trigger] named[i]).key)
                && !after.sessions().contains_key(named[i].key),
{
    if before.sessions().contains_key(key) && !after.sessions().contains_key(key) {
        assert(SessionManager::leaves(before.sessions()[key], false, before.timeout(), now));
        let i = choose|i: int| 0 <= i < named.len() && (#[trigger] named[i]).key == key;
        assert(named[i].sockets@ == before.sessions()[key].udp_sockets);
    }
    assert forall|i: int| 0 <= i < named.len() implies before.sessions().contains_key(
        (#[trigger] named[i]).key,
    ) && !after.sessions().contains_key(named[i].key) by {
        assert(SessionManager::leaves(
            before.sessions()[named[i].key],
            false,
            before.timeout(),
            now,
        ));
    }
}

/// A default session counts once. Where the cache was empty and a default
/// session was established for a client with the endpoint that was resolved,
/// the cache holds the endpoint, the client is bound to it, and the
/// endpoint's address counts one session more, unless its count stood at the
/// machine's limit; no other address changes its count.
pub proof fn lemma_default_session_counts_once(
    address: Seq<char>,
    port_mappings: Map<(u16, crate::config::Protocol), u16>,
    client_addr: ClientAddr,
    proxy_port: u16,
    protocol: crate::config::Protocol,
    now: u64,
    sessions: Map<(u8, u128), SessionView>,
    counts: Map<Seq<char>, usize>,
    cached_after: Option<EndpointView>,
    sessions_after: Map<(u8, u128), SessionView>,
    counts_after: Map<Seq<char>, usize>,
    closed: Seq<SessionSocket>,
)
    requires
        DataProxy::default_session_outcome(
            None,
            Some((address, port_mappings)),
            client_addr,
            proxy_port,
            protocol,
            now,
            sessions,
            counts,
            cached_after,
            sessions_after,
            counts_after,
            Ok(closed),
        ),
    ensures
        port_mappings.contains_key((proxy_port, protocol)),
        cached_after == Some((address, port_mappings)),
        sessions_after.contains_key(client_addr.ip.spec_key()),
        sessions_after[client_addr.ip.spec_key()] == fresh_session(address, port_mappings, now),
        spec_count(counts, address) < usize::MAX ==> spec_count(counts_after, address)
            == spec_count(counts, address) + 1,
        forall|other: Seq<char>|
            other != address ==> #[trigger] spec_count(counts_after, other) == spec_count(
                counts,
                other,
            ),
{
}

/// A control packet may be repeated. Applying a reset to the same target at
/// the same time a second time leaves the session table as the first
/// application left it, and the second application has no sockets to shut down.
pub proof fn lemma_control_packet_idempotent(
    start: SessionManager,
    once: SessionManager,
    twice: SessionManager,
    client: IpAddress,
    target_ip: Seq<char>,
    port_mappings: Map<(u16, crate::config::Protocol), u16>,
    now: u64,
    closed_again: Seq<SessionSocket>,
)
    requires
        once.sessions() == start.sessions().insert(
            client.spec_key(),
            fresh_session(target_ip, port_mappings, now),
        ),
        twice.sessions() == once.sessions().insert(
            client.spec_key(),
            fresh_session(target_ip, port_mappings, now),
        ),
        closed_again == match once.session_of(client) {
            Some(session) => session.udp_sockets,
            None => Seq::<SessionSocket>::empty(),
        },
    ensures
        twice.sessions() == once.sessions(),
        closed_again.len() == 0,
{
    assert(twice.sessions() =~= once.sessions());
}

} // verus!
