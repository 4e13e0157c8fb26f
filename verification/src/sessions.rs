//! Sessions opened by a password login.

use crate::clock;
use crate::clock::{since, whole_secs, Clock, MAX_NANOS, NANOS_PER_SEC};
use crate::random;
use crate::random::{random_bytes, to_hex};
use dashmap::DashMap;
use std::collections::hash_map::RandomState;
use vstd::prelude::*;
use vstd::string::*;

verus! {

/// An active web session.
///
/// `created_at` and `last_used` are readings of `clock`; `timeout` is a span
/// in nanoseconds.
#[derive(Debug)]
pub struct Session {
    pub id: String,
    pub created_at: u128,
    pub last_used: u128,
    pub created_from: String,
    pub timeout: u128,
    pub clock: Clock,
}

impl Clone for Session {
    fn clone(&self) -> (copy: Self)
        ensures
            copy == *self,
    {
        Session {
            id: self.id.clone(),
            created_at: self.created_at,
            last_used: self.last_used,
            created_from: self.created_from.clone(),
            timeout: self.timeout,
            clock: self.clock,
        }
    }
}

impl Session {
    /// A session has expired at `now` if it has lain unused for longer than
    /// its timeout.
    pub open spec fn expired_at(self, now: u128) -> bool {
        clock::nanos_since(self.last_used, now) > self.timeout
    }

    /// The session after a use at `now`.
    pub open spec fn touched_at(self, now: u128) -> Session {
        Session { last_used: now, ..self }
    }

    /// Whether the session has expired when the clock reads `now`.
    pub fn is_expired_at(&self, now: u128) -> (expired: bool)
        ensures
            expired == self.expired_at(now),
    {
        since(self.last_used, now) > self.timeout
    }

    /// Whether the session has expired by now.
    pub fn is_expired(&self) -> (expired: bool)
        ensures
            exists|now: u128| self.clock.reads(now) && expired == #[trigger] self.expired_at(now),
    {
        let now = self.clock.now();
        self.is_expired_at(now)
    }

    /// Marks the session as used when the clock reads `now`.
    pub fn touch_at(&mut self, now: u128)
        ensures
            *final(self) == old(self).touched_at(now),
    {
        self.last_used = now;
    }

    /// Marks the session as used now.
    pub fn touch(&mut self)
        ensures
            exists|now: u128|
                old(self).clock.reads(now) && *final(self) == #[trigger] old(self).touched_at(now),
    {
        let now = self.clock.now();
        self.touch_at(now);
    }
}

/// The sessions that a map holds, by id.
pub uninterp spec fn session_entries(
    map: DashMap<String, Session, RandomState>,
) -> Map<Seq<char>, Session>;

/// Calls `DashMap::new`: a map without entries.
#[verifier::external_body]
fn map_new() -> (map: DashMap<String, Session>)
    ensures
        session_entries(map).dom() == Set::<Seq<char>>::empty(),
{
    DashMap::new()
}

/// Calls `DashMap::get` and hands out a copy of the value: the value under the
/// key, if there is one.
#[verifier::external_body]
fn map_get(map: &DashMap<String, Session>, key: &str) -> (found: Option<Session>)
    ensures
        found == session_entries(*map).get(key@),
{
    map.get(key).map(|entry| entry.value().clone())
}

/// Calls `DashMap::get_mut` and assigns through the reference: replaces the
/// value under the key, if there is one.
#[verifier::external_body]
fn map_assign(map: &mut DashMap<String, Session>, key: &str, value: Session)
    ensures
        session_entries(*final(map)) == (if session_entries(*old(map)).contains_key(key@) {
            session_entries(*old(map)).insert(key@, value)
        } else {
            session_entries(*old(map))
        }),
{
    if let Some(mut entry) = map.get_mut(key) {
        *entry = value;
    }
}

/// Calls `DashMap::insert`: puts the value under the key, in place of any that
/// was there.
#[verifier::external_body]
fn map_insert(map: &mut DashMap<String, Session>, key: String, value: Session)
    ensures
        session_entries(*final(map)) == session_entries(*old(map)).insert(key@, value),
{
    map.insert(key, value);
}

/// Calls `DashMap::remove`: takes out the entry under the key, if there is one.
#[verifier::external_body]
fn map_remove(map: &mut DashMap<String, Session>, key: &str)
    ensures
        session_entries(*final(map)) == session_entries(*old(map)).remove(key@),
{
    map.remove(key);
}

/// Whether a list holds each of the sessions once, next to its id.
pub open spec fn enumerates(
    entries: Seq<(String, Session)>,
    sessions: Map<Seq<char>, Session>,
) -> bool {
    &&& forall|i: int|
        0 <= i < entries.len() ==> sessions.contains_pair(#[trigger] entries[i].0@, entries[i].1)
    &&& forall|id: Seq<char>| #[trigger]
        sessions.contains_key(id) ==> exists|i: int|
            0 <= i < entries.len() && #[trigger] entries[i].0@ == id
    &&& forall|i: int, j: int|
        0 <= i < j < entries.len() ==> #[trigger] entries[i].0@ != #[trigger] entries[j].0@
}

/// Whether a list of sessions has one under `id`.
spec fn has_id(entries: Seq<(String, Session)>, id: Seq<char>) -> bool {
    exists|i: int| 0 <= i < entries.len() && #[trigger] entries[i].0@ == id
}

/// The ids in one more entry of the list.
proof fn lemma_has_id_step(entries: Seq<(String, Session)>, i: int, id: Seq<char>)
    requires
        0 <= i < entries.len(),
    ensures
        has_id(entries.take(i + 1), id) <==> has_id(entries.take(i), id) || id == entries[i].0@,
{
    let longer = entries.take(i + 1);
    let shorter = entries.take(i);
    if has_id(longer, id) {
        let k = choose|k: int| 0 <= k < longer.len() && #[trigger] longer[k].0@ == id;
        if k < i {
            assert(shorter[k] == longer[k]);
        }
    }
    if has_id(shorter, id) {
        let k = choose|k: int| 0 <= k < shorter.len() && #[trigger] shorter[k].0@ == id;
        assert(longer[k] == shorter[k]);
    }
    assert(longer[i] == entries[i]);
}

/// Calls `DashMap::iter` and hands out a copy of every entry: each entry once,
/// in an order of which nothing is claimed.
#[verifier::external_body]
fn map_entries(map: &DashMap<String, Session>) -> (entries: Vec<(String, Session)>)
    ensures
        enumerates(entries@, session_entries(*map)),
{
    map.iter().map(|entry| (entry.key().clone(), entry.value().clone())).collect()
}

/// Calls `DashMap::len`: the number of entries.
#[verifier::external_body]
fn map_len(map: &DashMap<String, Session>) -> (len: usize)
    ensures
        len == session_entries(*map).len(),
{
    map.len()
}

/// Calls `DashMap::clear`: takes out every entry.
#[verifier::external_body]
fn map_clear(map: &mut DashMap<String, Session>)
    ensures
        session_entries(*final(map)).dom() == Set::<Seq<char>>::empty(),
{
    map.clear();
}

/// What the session list shows of a session.
#[derive(Debug)]
pub struct SessionInfo {
    pub id_prefix: String,
    pub created_from: String,
    pub age_secs: u64,
    pub idle_secs: u64,
}

impl Clone for SessionInfo {
    fn clone(&self) -> (copy: Self)
        ensures
            copy == *self,
    {
        SessionInfo {
            id_prefix: self.id_prefix.clone(),
            created_from: self.created_from.clone(),
            age_secs: self.age_secs,
            idle_secs: self.idle_secs,
        }
    }
}

/// How much of a session id the session list shows.
pub const ID_PREFIX_LEN: usize = 8;

impl SessionInfo {
    /// Whether this is what the list shows at `now` of the session under `id`.
    pub open spec fn describes(self, id: Seq<char>, session: Session, now: u128) -> bool {
        &&& self.id_prefix@ == (if id.len() < ID_PREFIX_LEN {
            id
        } else {
            id.take(ID_PREFIX_LEN as int)
        })
        &&& self.created_from@ == session.created_from@
        &&& self.age_secs == clock::nanos_since(session.created_at, now) / (NANOS_PER_SEC as int)
        &&& self.idle_secs == clock::nanos_since(session.last_used, now) / (NANOS_PER_SEC as int)
    }
}

/// Whether there is a session under `id` that has not expired at `now`.
pub open spec fn is_live(sessions: Map<Seq<char>, Session>, id: Seq<char>, now: u128) -> bool {
    sessions.contains_key(id) && !sessions[id].expired_at(now)
}

/// The sessions that have not expired at `now`.
pub open spec fn live_sessions(
    sessions: Map<Seq<char>, Session>,
    now: u128,
) -> Map<Seq<char>, Session> {
    Map::new(|id: Seq<char>| is_live(sessions, id, now), |id: Seq<char>| sessions[id])
}

/// Whether a list shows each of the sessions under `ids`, in that order.
pub open spec fn lists(
    infos: Seq<SessionInfo>,
    ids: Seq<Seq<char>>,
    sessions: Map<Seq<char>, Session>,
    now: u128,
) -> bool {
    &&& infos.len() == ids.len()
    &&& forall|i: int|
        0 <= i < ids.len() ==> (#[trigger] infos[i]).describes(ids[i], sessions[ids[i]], now)
}

/// Whether `ids` holds the ids of exactly the live sessions, each once.
pub open spec fn live_ids(
    ids: Seq<Seq<char>>,
    sessions: Map<Seq<char>, Session>,
    now: u128,
) -> bool {
    &&& ids.no_duplicates()
    &&& forall|id: Seq<char>| #[trigger] ids.contains(id) <==> is_live(sessions, id, now)
}

/// In-memory session store.
#[derive(Debug)]
pub struct SessionStore {
    sessions: DashMap<String, Session>,
    timeout: u128,
    clock: Clock,
}

impl SessionStore {
    /// The sessions by id, expired ones among them until they are noticed.
    pub closed spec fn sessions(&self) -> Map<Seq<char>, Session> {
        session_entries(self.sessions)
    }

    /// The timeout of new sessions, in nanoseconds.
    pub closed spec fn timeout(&self) -> u128 {
        self.timeout
    }

    /// The clock that times the sessions.
    pub closed spec fn clock(&self) -> Clock {
        self.clock
    }

    /// Whether two stores time their sessions alike.
    pub open spec fn same_timing(&self, other: &SessionStore) -> bool {
        self.timeout() == other.timeout() && self.clock() == other.clock()
    }

    /// There are finitely many sessions; each is filed under its own id and
    /// timed as the store times.
    pub open spec fn consistent(&self) -> bool {
        &&& self.sessions().dom().finite()
        &&& forall|id: Seq<char>| #[trigger]
            self.sessions().contains_key(id) ==> {
                &&& self.sessions()[id].id@ == id
                &&& self.sessions()[id].timeout == self.timeout()
                &&& self.sessions()[id].clock == self.clock()
            }
    }

    /// Whether `session` is the one that the store opens for `remote_ip`
    /// under `id` at `now`.
    pub open spec fn opens(
        &self,
        session: Session,
        id: Seq<char>,
        remote_ip: Seq<char>,
        now: u128,
    ) -> bool {
        &&& session.id@ == id
        &&& session.created_from@ == remote_ip
        &&& session.created_at == now
        &&& session.last_used == now
        &&& session.timeout == self.timeout()
        &&& session.clock == self.clock()
    }

    /// Reads the clock that times the sessions.
    pub fn now(&self) -> (now: u128)
        ensures
            self.clock().reads(now),
    {
        self.clock.now()
    }

    /// A store without sessions.
    pub fn new(timeout_secs: u64) -> (store: SessionStore)
        ensures
            store.sessions().dom() == Set::<Seq<char>>::empty(),
            store.timeout() == timeout_secs * NANOS_PER_SEC,
            store.timeout() == timeout_secs * 1_000_000_000,
            store.consistent(),
    {
        SessionStore {
            sessions: map_new(),
            timeout: timeout_secs as u128 * NANOS_PER_SEC,
            clock: Clock::start(),
        }
    }

    /// Opens a session under a given id when the clock reads `now`, in place
    /// of any that was there.
    pub fn create_session_at(&mut self, session_id: String, remote_ip: &str, now: u128)
        ensures
            final(self).sessions() == old(self).sessions().insert(
                session_id@,
                final(self).sessions()[session_id@],
            ),
            old(self).opens(
                final(self).sessions()[session_id@],
                session_id@,
                remote_ip@,
                now,
            ),
            final(self).same_timing(old(self)),
            old(self).consistent() ==> final(self).consistent(),
    {
        let session = Session {
            id: session_id.clone(),
            created_at: now,
            last_used: now,
            created_from: remote_ip.to_owned(),
            timeout: self.timeout,
            clock: self.clock,
        };
        map_insert(&mut self.sessions, session_id, session);
    }

    /// Opens a session under a fresh random id of 64 hexadecimal digits and
    /// returns the id.
    pub fn create_session(&mut self, remote_ip: &str) -> (session_id: String)
        ensures
            random::is_hex(session_id@, 64),
            final(self).sessions() == old(self).sessions().insert(
                session_id@,
                final(self).sessions()[session_id@],
            ),
            exists|now: u128|
                old(self).clock().reads(now) && #[trigger] old(self).opens(
                    final(self).sessions()[session_id@],
                    session_id@,
                    remote_ip@,
                    now,
                ),
            final(self).same_timing(old(self)),
            old(self).consistent() ==> final(self).consistent(),
    {
        let session_id = generate_session_id();
        let now = self.now();
        self.create_session_at(session_id.clone(), remote_ip, now);
        session_id
    }

    /// Checks a session when the clock reads `now`. A live session counts as
    /// used; an expired one is dropped.
    pub fn validate_at(&mut self, session_id: &str, now: u128) -> (valid: bool)
        ensures
            valid == is_live(old(self).sessions(), session_id@, now),
            valid <==> old(self).sessions().contains_key(session_id@) && now <= old(
                self,
            ).sessions()[session_id@].last_used + old(self).sessions()[session_id@].timeout,
            valid ==> final(self).sessions() == old(self).sessions().insert(
                session_id@,
                old(self).sessions()[session_id@].touched_at(now),
            ),
            !valid ==> final(self).sessions() == old(self).sessions().remove(session_id@),
            final(self).same_timing(old(self)),
            old(self).consistent() ==> final(self).consistent(),
    {
        match map_get(&self.sessions, session_id) {
            Some(mut session) => {
                if session.is_expired_at(now) {
                    map_remove(&mut self.sessions, session_id);
                    return false;
                }
                session.touch_at(now);
                map_assign(&mut self.sessions, session_id, session);
                true
            },
            None => {
                assert(self.sessions() =~= self.sessions().remove(session_id@));
                false
            },
        }
    }

    /// Checks a session now. A live session counts as used; an expired one is
    /// dropped.
    pub fn validate(&mut self, session_id: &str) -> (valid: bool)
        ensures
            exists|now: u128|
                old(self).clock().reads(now) && valid == #[trigger] is_live(
                    old(self).sessions(),
                    session_id@,
                    now,
                ) && (valid ==> final(self).sessions() == old(self).sessions().insert(
                    session_id@,
                    old(self).sessions()[session_id@].touched_at(now),
                )),
            !valid ==> final(self).sessions() == old(self).sessions().remove(session_id@),
            final(self).same_timing(old(self)),
            old(self).consistent() ==> final(self).consistent(),
    {
        let now = self.now();
        self.validate_at(session_id, now)
    }

    /// Drops a session.
    pub fn remove(&mut self, session_id: &str)
        ensures
            final(self).sessions() == old(self).sessions().remove(session_id@),
            final(self).same_timing(old(self)),
            old(self).consistent() ==> final(self).consistent(),
    {
        map_remove(&mut self.sessions, session_id);
    }

    /// Lists the sessions that are live when the clock reads `now` and drops
    /// the others.
    pub fn active_sessions_at(&mut self, now: u128) -> (infos: Vec<SessionInfo>)
        requires
            now <= MAX_NANOS,
        ensures
            exists|ids: Seq<Seq<char>>| #[trigger]
                live_ids(ids, old(self).sessions(), now) && lists(
                    infos@,
                    ids,
                    old(self).sessions(),
                    now,
                ),
            final(self).sessions() == live_sessions(old(self).sessions(), now),
            final(self).same_timing(old(self)),
            old(self).consistent() ==> final(self).consistent(),
    {
        let entries = map_entries(&self.sessions);
        let mut infos: Vec<SessionInfo> = Vec::new();
        let ghost all = self.sessions();
        let ghost mut ids: Seq<Seq<char>> = Seq::empty();
        let mut i: usize = 0;
        while i < entries.len()
            invariant
                i <= entries@.len(),
                now <= MAX_NANOS,
                all == old(self).sessions(),
                self.same_timing(old(self)),
                enumerates(entries@, all),
                forall|id: Seq<char>| #[trigger]
                    self.sessions().contains_key(id) <==> all.contains_key(id) && !(has_id(
                        entries@.take(i as int),
                        id,
                    ) && all[id].expired_at(now)),
                forall|id: Seq<char>|
                    self.sessions().contains_key(id) ==> #[trigger] self.sessions()[id] == all[id],
                ids.no_duplicates(),
                lists(infos@, ids, all, now),
                forall|id: Seq<char>| #[trigger]
                    ids.contains(id) <==> has_id(entries@.take(i as int), id)
                        && !all[id].expired_at(now),
            decreases entries@.len() - i,
        {
            let ghost before = ids;
            let ghost rest = self.sessions();
            let key = entries[i].0.as_str();
            let session = &entries[i].1;
            if session.is_expired_at(now) {
                map_remove(&mut self.sessions, key);
            } else {
                let len: usize = key.unicode_len();
                let shown: usize = if len < ID_PREFIX_LEN {
                    len
                } else {
                    ID_PREFIX_LEN
                };
                let info = SessionInfo {
                    id_prefix: key.substring_char(0, shown).to_owned(),
                    created_from: session.created_from.clone(),
                    age_secs: whole_secs(since(session.created_at, now)),
                    idle_secs: whole_secs(since(session.last_used, now)),
                };
                proof {
                    assert(key@.subrange(0, shown as int) =~= (if len < ID_PREFIX_LEN {
                        key@
                    } else {
                        key@.take(ID_PREFIX_LEN as int)
                    }));
                    assert(!has_id(entries@.take(i as int), key@));
                    assert(!before.contains(key@));
                    ids = ids.push(key@);
                    assert(ids.last() == key@);
                    assert(ids.no_duplicates());
                    assert forall|id: Seq<char>| #[trigger] ids.contains(id) <==> before.contains(
                        id,
                    ) || id == key@ by {
                        if before.contains(id) {
                            let k = before.index_of(id);
                            assert(ids[k] == id);
                        }
                    }
                }
                infos.push(info);
            }
            proof {
                assert forall|id: Seq<char>| #[trigger]
                    has_id(entries@.take(i + 1), id) <==> has_id(entries@.take(i as int), id) || id
                        == key@ by {
                    lemma_has_id_step(entries@, i as int, id);
                }
                assert(!has_id(entries@.take(i as int), key@));
                assert(self.sessions() == rest || self.sessions() == rest.remove(key@));
            }
            i += 1;
        }
        proof {
            assert(entries@.take(entries@.len() as int) =~= entries@);
            assert(self.sessions() =~= live_sessions(all, now));
            assert(live_ids(ids, all, now));
            if all.dom().finite() {
                assert(self.sessions().dom().subset_of(all.dom()));
                vstd::set_lib::lemma_set_subset_finite(all.dom(), self.sessions().dom());
            }
        }
        infos
    }

    /// Lists the sessions that are live now and drops the others.
    pub fn active_sessions(&mut self) -> (infos: Vec<SessionInfo>)
        ensures
            exists|ids: Seq<Seq<char>>, now: u128|
                old(self).clock().reads(now) && #[trigger] live_ids(
                    ids,
                    old(self).sessions(),
                    now,
                ) && lists(
                    infos@,
                    ids,
                    old(self).sessions(),
                    now,
                ) && final(self).sessions() == live_sessions(old(self).sessions(), now),
            final(self).same_timing(old(self)),
            old(self).consistent() ==> final(self).consistent(),
    {
        let now = self.now();
        self.active_sessions_at(now)
    }

    /// The number of sessions, expired ones among them until they are noticed.
    pub fn count(&self) -> (count: usize)
        ensures
            count == self.sessions().len(),
    {
        map_len(&self.sessions)
    }

    /// Drops every session and returns how many there were.
    pub fn clear_all(&mut self) -> (count: usize)
        ensures
            count == old(self).sessions().len(),
            final(self).sessions().dom() == Set::<Seq<char>>::empty(),
            final(self).same_timing(old(self)),
            final(self).consistent(),
    {
        let count = map_len(&self.sessions);
        map_clear(&mut self.sessions);
        count
    }
}

/// A fresh random session id: 64 hexadecimal digits.
pub fn generate_session_id() -> (id: String)
    ensures
        random::is_hex(id@, 64),
{
    let bytes = random_bytes(32);
    to_hex(bytes.as_slice())
}

/// A session that has expired stays expired.
pub proof fn law_expiry_is_for_good(session: Session, now: u128, later: u128)
    requires
        session.expired_at(now),
        now <= later,
    ensures
        session.expired_at(later),
{
}

/// A session that was just opened is live until its timeout has passed, and no
/// longer.
pub proof fn law_new_session_lives_for_the_timeout(
    store: SessionStore,
    sessions: Map<Seq<char>, Session>,
    session: Session,
    id: Seq<char>,
    remote_ip: Seq<char>,
    opened: u128,
    now: u128,
)
    requires
        store.opens(session, id, remote_ip, opened),
    ensures
        is_live(sessions.insert(id, session), id, now) <==> now <= opened + store.timeout(),
{
}

/// Each use of a live session starts its timeout anew.
pub proof fn law_use_starts_the_timeout_anew(
    sessions: Map<Seq<char>, Session>,
    id: Seq<char>,
    used: u128,
    now: u128,
)
    requires
        is_live(sessions, id, used),
    ensures
        is_live(sessions.insert(id, sessions[id].touched_at(used)), id, now) <==> now <= used
            + sessions[id].timeout,
{
}

/// A session that was dropped is never live again under its id, unless one is
/// opened under that id.
pub proof fn law_dropped_session_is_gone(
    sessions: Map<Seq<char>, Session>,
    id: Seq<char>,
    later: u128,
)
    ensures
        !is_live(sessions.remove(id), id, later),
{
}

/// What is done to one session leaves the others as they are.
pub proof fn law_sessions_are_independent(
    sessions: Map<Seq<char>, Session>,
    id: Seq<char>,
    session: Session,
    other: Seq<char>,
    now: u128,
)
    requires
        other != id,
    ensures
        is_live(sessions.insert(id, session), other, now) == is_live(sessions, other, now),
        is_live(sessions.remove(id), other, now) == is_live(sessions, other, now),
        sessions.insert(id, session).get(other) == sessions.get(other),
        sessions.remove(id).get(other) == sessions.get(other),
{
}

/// A list of the live sessions is as long as what is left in the store, and
/// listing again at the same time drops nothing more.
pub proof fn law_list_matches_what_is_left(
    infos: Seq<SessionInfo>,
    ids: Seq<Seq<char>>,
    sessions: Map<Seq<char>, Session>,
    now: u128,
)
    requires
        live_ids(ids, sessions, now),
        lists(infos, ids, sessions, now),
    ensures
        live_sessions(sessions, now).dom().finite(),
        infos.len() == live_sessions(sessions, now).len(),
        live_sessions(live_sessions(sessions, now), now) == live_sessions(sessions, now),
{
    let left = live_sessions(sessions, now);
    ids.unique_seq_to_set();
    assert(ids.to_set() =~= left.dom());
    assert(live_sessions(left, now) =~= left);
}

/// A session has expired once more time than its timeout has passed since its
/// last use, and not before.
pub proof fn law_session_expires_after_its_timeout(session: Session, now: u128)
    ensures
        session.expired_at(now) <==> now > session.last_used + session.timeout,
{
}

/// A session is live exactly if it is there and its timeout has not passed since
/// its last use.
pub proof fn law_what_is_live(sessions: Map<Seq<char>, Session>, id: Seq<char>, now: u128)
    ensures
        is_live(sessions, id, now) <==> sessions.contains_key(id) && now <= sessions[id].last_used
            + sessions[id].timeout,
{
}

/// A use changes when the session was last used, and nothing else about it.
pub proof fn law_use_changes_the_last_use_only(session: Session, now: u128)
    ensures
        session.touched_at(now).last_used == now,
        session.touched_at(now).id == session.id,
        session.touched_at(now).created_at == session.created_at,
        session.touched_at(now).created_from == session.created_from,
        session.touched_at(now).timeout == session.timeout,
        session.touched_at(now).clock == session.clock,
{
}

/// A new session is created and last used at the moment at which it is opened,
/// for the client that opened it, under its id, with the store's timeout.
pub proof fn law_how_a_session_starts(
    store: SessionStore,
    session: Session,
    id: Seq<char>,
    remote_ip: Seq<char>,
    now: u128,
)
    ensures
        store.opens(session, id, remote_ip, now) <==> session.id@ == id && session.created_from@
            == remote_ip && session.created_at == now && session.last_used == now
            && session.timeout == store.timeout() && session.clock == store.clock(),
{
}

/// Listing leaves the sessions whose timeout has not passed, as they were, and
/// no others.
pub proof fn law_what_listing_leaves(
    sessions: Map<Seq<char>, Session>,
    id: Seq<char>,
    now: u128,
)
    ensures
        live_sessions(sessions, now).get(id) == (if sessions.contains_key(id) && now
            <= sessions[id].last_used + sessions[id].timeout {
            Some(sessions[id])
        } else {
            None
        }),
{
}

/// What is shown of a session: no more than the first eight characters of its
/// id, who opened it, and the whole seconds since it was opened and last used.
pub proof fn law_what_the_list_shows(
    info: SessionInfo,
    id: Seq<char>,
    session: Session,
    now: u128,
)
    requires
        info.describes(id, session, now),
    ensures
        info.id_prefix@.is_prefix_of(id),
        id.len() <= 8 ==> info.id_prefix@.len() == id.len(),
        id.len() >= 8 ==> info.id_prefix@.len() == 8,
        info.created_from@ == session.created_from@,
        session.created_at <= now ==> session.created_at + info.age_secs * 1_000_000_000 <= now
            < session.created_at + (info.age_secs + 1) * 1_000_000_000,
        now <= session.created_at ==> info.age_secs == 0,
        session.last_used <= now ==> session.last_used + info.idle_secs * 1_000_000_000 <= now
            < session.last_used + (info.idle_secs + 1) * 1_000_000_000,
        now <= session.last_used ==> info.idle_secs == 0,
{
}

/// A list shows each live session once and no other: its entries and the live
/// ids stand in pairs.
pub proof fn law_list_shows_each_live_session_once(
    infos: Seq<SessionInfo>,
    ids: Seq<Seq<char>>,
    sessions: Map<Seq<char>, Session>,
    now: u128,
)
    requires
        live_ids(ids, sessions, now),
        lists(infos, ids, sessions, now),
    ensures
        infos.len() == ids.len(),
        forall|i: int, j: int| 0 <= i < j < ids.len() ==> #[trigger] ids[i] != #[trigger] ids[j],
        forall|i: int|
            0 <= i < ids.len() ==> sessions.contains_key(#[trigger] ids[i]) && now
                <= sessions[ids[i]].last_used + sessions[ids[i]].timeout
                && infos[i].describes(ids[i], sessions[ids[i]], now),
        forall|id: Seq<char>| #[trigger]
            sessions.contains_key(id) && now <= sessions[id].last_used + sessions[id].timeout
                ==> exists|i: int| 0 <= i < ids.len() && #[trigger] ids[i] == id,
{
    assert forall|i: int| 0 <= i < ids.len() implies sessions.contains_key(#[trigger] ids[i]) && now
        <= sessions[ids[i]].last_used + sessions[ids[i]].timeout && infos[i].describes(
        ids[i],
        sessions[ids[i]],
        now,
    ) by {
        assert(ids.contains(ids[i]));
        assert(infos[i].describes(ids[i], sessions[ids[i]], now));
    }
    assert forall|id: Seq<char>| #[trigger]
        sessions.contains_key(id) && now <= sessions[id].last_used
            + sessions[id].timeout implies exists|i: int|
        0 <= i < ids.len() && #[trigger] ids[i] == id by {
        assert(is_live(sessions, id, now));
        assert(ids.contains(id));
    }
}

/// In a consistent store each session bears the id under which it is filed and
/// is timed as the store times; stores that are timed alike agree in both.
pub proof fn law_what_consistent_means(store: SessionStore, other: SessionStore, id: Seq<char>)
    requires
        store.consistent(),
        store.sessions().contains_key(id),
        other.same_timing(&store),
    ensures
        store.sessions()[id].id@ == id,
        store.sessions()[id].timeout == store.timeout(),
        store.sessions()[id].clock == store.clock(),
        other.timeout() == store.timeout(),
        other.clock() == store.clock(),
{
}

} // verus!
