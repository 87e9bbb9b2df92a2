//! The concurrent maps that hold the director's shared state, and what the
//! library takes for granted about them.

use vstd::prelude::*;
use dashmap::DashMap;
use crate::session::{Session, SessionView};

verus! {

/// `dashmap::DashMap`, a hash map behind locks. The library holds each map
/// in a private field and changes it through exclusive references only, so
/// that what a map holds changes with the calls below and with nothing else.
#[verifier::external_type_specification]
#[verifier::external_body]
#[verifier::reject_recursive_types(K)]
#[verifier::reject_recursive_types(V)]
#[verifier::reject_recursive_types(S)]
pub struct ExDashMap<K, V, S>(DashMap<K, V, S>);

/// What a map of session counts holds: the count kept under each backend address.
pub uninterp spec fn session_counts(m: DashMap<String, usize>) -> Map<Seq<char>, usize>;

/// The session counts of a map that holds nothing.
pub open spec fn no_counts() -> Map<Seq<char>, usize> {
    Map::empty()
}

/// `DashMap::new`: a map that holds nothing.
#[verifier::external_body]
pub(crate) fn counts_new() -> (created: DashMap<String, usize>)
    ensures
        session_counts(created) == no_counts(),
{
    DashMap::new()
}

/// `DashMap::get`, copying the count out: the count kept under `key`, if any.
#[verifier::external_body]
pub(crate) fn counts_get(m: &DashMap<String, usize>, key: &str) -> (r: Option<usize>)
    ensures
        r == if session_counts(*m).contains_key(key@) {
            Some(session_counts(*m)[key@])
        } else {
            None
        },
{
    match m.get(key) {
        Some(entry) => Some(*entry),
        None => None,
    }
}

/// `DashMap::insert`: afterwards `key` holds `value`, and every other key what it held.
#[verifier::external_body]
pub(crate) fn counts_insert(m: &mut DashMap<String, usize>, key: String, value: usize)
    ensures
        session_counts(*final(m)) == session_counts(*old(m)).insert(key@, value),
{
    m.insert(key, value);
}

/// `DashMap::remove`: afterwards `key` holds nothing, and every other key what it held.
#[verifier::external_body]
pub(crate) fn counts_remove(m: &mut DashMap<String, usize>, key: &str)
    ensures
        session_counts(*final(m)) == session_counts(*old(m)).remove(key@),
{
    m.remove(key);
}

/// `DashMap::iter`, copying each entry out: every key of the map once, in
/// no particular order, each with the count kept under it.
#[verifier::external_body]
pub(crate) fn counts_entries(m: &DashMap<String, usize>) -> (r: Vec<(String, usize)>)
    ensures
        forall|i: int, j: int| 0 <= i < j < r@.len() ==> (#[trigger] r@[i]).0@ != (#[trigger] r@[j]).0@,
        forall|i: int|
            0 <= i < r@.len() ==> session_counts(*m).contains_key((#[trigger] r@[i]).0@)
                && session_counts(*m)[r@[i].0@] == r@[i].1,
        forall|k: Seq<char>|
            session_counts(*m).contains_key(k) ==> exists|i: int|
                0 <= i < r@.len() && (#[trigger] r@[i]).0@ == k,
{
    let mut out = Vec::new();
    for entry in m.iter() {
        out.push((entry.key().clone(), *entry.value()));
    }
    out
}

/// What a session table holds: the session kept under each client key.
pub uninterp spec fn session_entries(m: DashMap<(u8, u128), Session>) -> Map<(u8, u128), SessionView>;

/// The sessions of a table that holds nothing.
pub open spec fn no_sessions() -> Map<(u8, u128), SessionView> {
    Map::empty()
}

/// `DashMap::new`: a table that holds nothing.
#[verifier::external_body]
pub(crate) fn sessions_new() -> (created: DashMap<(u8, u128), Session>)
    ensures
        session_entries(created) == no_sessions(),
{
    DashMap::new()
}

/// `DashMap::get`, cloning the session out: the session kept under `key`, if any.
#[verifier::external_body]
pub(crate) fn sessions_get(m: &DashMap<(u8, u128), Session>, key: (u8, u128)) -> (r: Option<Session>)
    ensures
        match r {
            Some(session) => session_entries(*m).contains_key(key) && session@ == session_entries(
                *m,
            )[key],
            None => !session_entries(*m).contains_key(key),
        },
{
    match m.get(&key) {
        Some(entry) => Some(entry.clone()),
        None => None,
    }
}

/// `DashMap::insert`: afterwards `key` holds `session`, and every other key what it held.
#[verifier::external_body]
pub(crate) fn sessions_insert(m: &mut DashMap<(u8, u128), Session>, key: (u8, u128), session: Session)
    ensures
        session_entries(*final(m)) == session_entries(*old(m)).insert(key, session@),
{
    m.insert(key, session);
}

/// `DashMap::remove`: afterwards `key` holds nothing, and every other key what it held.
#[verifier::external_body]
pub(crate) fn sessions_remove(m: &mut DashMap<(u8, u128), Session>, key: (u8, u128))
    ensures
        session_entries(*final(m)) == session_entries(*old(m)).remove(key),
{
    m.remove(&key);
}

/// `DashMap::iter`, copying each key out: every key of the table once, in
/// no particular order.
#[verifier::external_body]
pub(crate) fn sessions_keys(m: &DashMap<(u8, u128), Session>) -> (r: Vec<(u8, u128)>)
    ensures
        forall|i: int, j: int| 0 <= i < j < r@.len() ==> r@[i] != r@[j],
        forall|i: int| 0 <= i < r@.len() ==> session_entries(*m).contains_key(#[trigger] r@[i]),
        forall|k: (u8, u128)| #[trigger] session_entries(*m).contains_key(k) ==> r@.contains(k),
{
    let mut out = Vec::new();
    for entry in m.iter() {
        out.push(*entry.key());
    }
    out
}

} // verus!
