//! Brute-force protection of the password login.

use crate::clock::{Clock, MAX_NANOS, NANOS_PER_SEC};
use dashmap::DashMap;
use std::collections::hash_map::RandomState;
use vstd::prelude::*;

verus! {

/// The failed logins of one address. The times are readings of the limiter's
/// clock.
#[derive(Debug, Clone, Copy)]
pub struct LoginAttemptRecord {
    pub failed_count: u32,
    pub first_failure: u128,
    pub locked_until: Option<u128>,
}

/// The records that a map holds, by address.
pub uninterp spec fn attempt_entries(
    map: DashMap<String, LoginAttemptRecord, RandomState>,
) -> Map<Seq<char>, LoginAttemptRecord>;

/// Calls `DashMap::new`: a map without entries.
#[verifier::external_body]
fn map_new() -> (map: DashMap<String, LoginAttemptRecord>)
    ensures
        attempt_entries(map).dom() == Set::<Seq<char>>::empty(),
{
    DashMap::new()
}

/// Calls `DashMap::get` and hands out a copy of the value: the value under the
/// key, if there is one.
#[verifier::external_body]
fn map_get(map: &DashMap<String, LoginAttemptRecord>, key: &str) -> (found: Option<
    LoginAttemptRecord,
>)
    ensures
        found == attempt_entries(*map).get(key@),
{
    map.get(key).map(|entry| *entry.value())
}

/// Calls `DashMap::entry` and `Entry::or_insert` and hands out a copy of the
/// value: puts the value under the key unless there is one, and gives the
/// value that is there then.
#[verifier::external_body]
fn map_get_or_insert(
    map: &mut DashMap<String, LoginAttemptRecord>,
    key: String,
    value: LoginAttemptRecord,
) -> (found: LoginAttemptRecord)
    ensures
        attempt_entries(*final(map)) == (if attempt_entries(*old(map)).contains_key(key@) {
            attempt_entries(*old(map))
        } else {
            attempt_entries(*old(map)).insert(key@, value)
        }),
        found == attempt_entries(*final(map))[key@],
{
    *map.entry(key).or_insert(value)
}

/// Calls `DashMap::get_mut` and assigns through the reference: replaces the
/// value under the key, if there is one.
#[verifier::external_body]
fn map_assign(map: &mut DashMap<String, LoginAttemptRecord>, key: &str, value: LoginAttemptRecord)
    ensures
        attempt_entries(*final(map)) == (if attempt_entries(*old(map)).contains_key(key@) {
            attempt_entries(*old(map)).insert(key@, value)
        } else {
            attempt_entries(*old(map))
        }),
{
    if let Some(mut entry) = map.get_mut(key) {
        *entry = value;
    }
}

/// Calls `DashMap::remove`: takes out the entry under the key, if there is one.
#[verifier::external_body]
fn map_remove(map: &mut DashMap<String, LoginAttemptRecord>, key: &str)
    ensures
        attempt_entries(*final(map)) == attempt_entries(*old(map)).remove(key@),
{
    map.remove(key);
}

/// How often an address with this record has failed.
pub open spec fn failures(record: Option<LoginAttemptRecord>) -> int {
    match record {
        Some(r) => r.failed_count as int,
        None => 0,
    }
}

/// The record of an address after one more failure at `now`, if `max` failures
/// lock it out for `lockout_secs` seconds.
pub open spec fn after_failure(
    record: Option<LoginAttemptRecord>,
    max: u32,
    lockout_secs: u64,
    now: u128,
) -> LoginAttemptRecord {
    let count = (failures(record) + 1) as u32;
    LoginAttemptRecord {
        failed_count: count,
        first_failure: match record {
            Some(r) => r.first_failure,
            None => now,
        },
        locked_until: if count >= max {
            Some((now + lockout_secs * NANOS_PER_SEC) as u128)
        } else {
            match record {
                Some(r) => r.locked_until,
                None => None,
            }
        },
    }
}

/// The seconds that a lockout until `end` lasts yet at `now`, counting a
/// second that has begun, as far as a `u64` can tell.
pub open spec fn secs_left(end: u128, now: u128) -> u64 {
    let secs = (end - now) / (NANOS_PER_SEC as int) + 1;
    if secs > u64::MAX {
        u64::MAX
    } else {
        secs as u64
    }
}

/// The seconds for which an address with this record is locked out at `now`.
/// Nobody is locked out where `max` is zero.
pub open spec fn lockout_left(record: Option<LoginAttemptRecord>, max: u32, now: u128) -> Option<
    u64,
> {
    if max == 0 || record is None {
        None
    } else {
        match record->0.locked_until {
            Some(end) if now < end => Some(secs_left(end, now)),
            _ => None,
        }
    }
}

/// Tracks failed logins per address.
#[derive(Debug)]
pub struct LoginRateLimiter {
    attempts: DashMap<String, LoginAttemptRecord>,
    max_attempts: u32,
    lockout_secs: u64,
    clock: Clock,
}

impl LoginRateLimiter {
    /// The records by address.
    pub closed spec fn attempts(&self) -> Map<Seq<char>, LoginAttemptRecord> {
        attempt_entries(self.attempts)
    }

    /// The number of failures that locks an address out; zero for never.
    pub closed spec fn max_attempts(&self) -> u32 {
        self.max_attempts
    }

    /// How many seconds a lockout lasts.
    pub closed spec fn lockout_secs(&self) -> u64 {
        self.lockout_secs
    }

    /// The clock that times the lockouts.
    pub closed spec fn clock(&self) -> Clock {
        self.clock
    }

    /// Whether two limiters go by the same rules and the same clock.
    pub open spec fn same_rules(&self, other: &LoginRateLimiter) -> bool {
        &&& self.max_attempts() == other.max_attempts()
        &&& self.lockout_secs() == other.lockout_secs()
        &&& self.clock() == other.clock()
    }

    /// Only an address that has reached the limit has a lockout in its record.
    pub open spec fn consistent(&self) -> bool {
        forall|ip: Seq<char>| #[trigger]
            self.attempts().contains_key(ip) && self.attempts()[ip].locked_until is Some
                ==> self.attempts()[ip].failed_count >= self.max_attempts()
    }

    /// A limiter that has seen no failure.
    pub fn new(max_attempts: u32, lockout_secs: u64) -> (limiter: LoginRateLimiter)
        ensures
            limiter.attempts().dom() == Set::<Seq<char>>::empty(),
            limiter.max_attempts() == max_attempts,
            limiter.lockout_secs() == lockout_secs,
            limiter.consistent(),
    {
        LoginRateLimiter { attempts: map_new(), max_attempts, lockout_secs, clock: Clock::start() }
    }

    /// How often `ip` has failed since it was last cleared.
    pub fn failed_count(&self, ip: &str) -> (count: u32)
        ensures
            count == failures(self.attempts().get(ip@)),
    {
        match map_get(&self.attempts, ip) {
            Some(record) => record.failed_count,
            None => 0,
        }
    }

    /// The remaining lockout of `ip` in seconds when the clock reads `now`, or
    /// `None` if it is not locked out.
    pub fn is_locked_out_at(&self, ip: &str, now: u128) -> (secs: Option<u64>)
        ensures
            secs == lockout_left(self.attempts().get(ip@), self.max_attempts(), now),
    {
        if self.max_attempts == 0 {
            return None;
        }
        if let Some(record) = map_get(&self.attempts, ip) {
            if let Some(end) = record.locked_until {
                if now < end {
                    let secs: u128 = (end - now) / NANOS_PER_SEC;
                    if secs >= u64::MAX as u128 {
                        return Some(u64::MAX);
                    }
                    return Some(secs as u64 + 1);
                }
            }
        }
        None
    }

    /// The remaining lockout of `ip` in seconds, or `None` if it is not locked
    /// out.
    pub fn is_locked_out(&self, ip: &str) -> (secs: Option<u64>)
        ensures
            exists|now: u128|
                self.clock().reads(now) && secs == #[trigger] lockout_left(
                    self.attempts().get(ip@),
                    self.max_attempts(),
                    now,
                ),
    {
        let now = self.clock.now();
        self.is_locked_out_at(ip, now)
    }

    /// Records a failed login from `ip` when the clock reads `now`. Returns
    /// whether `ip` is locked out by it.
    pub fn record_failure_at(&mut self, ip: &str, now: u128) -> (locked: bool)
        requires
            now <= MAX_NANOS,
            old(self).max_attempts() != 0 ==> failures(old(self).attempts().get(ip@)) < u32::MAX,
        ensures
            locked == (old(self).max_attempts() != 0 && failures(old(self).attempts().get(ip@)) + 1
                >= old(self).max_attempts()),
            old(self).max_attempts() == 0 ==> final(self).attempts() == old(self).attempts(),
            old(self).max_attempts() != 0 ==> final(self).attempts() == old(self).attempts().insert(
                ip@,
                after_failure(
                    old(self).attempts().get(ip@),
                    old(self).max_attempts(),
                    old(self).lockout_secs(),
                    now,
                ),
            ),
            final(self).same_rules(old(self)),
            old(self).consistent() ==> final(self).consistent(),
            old(self).consistent() && old(self).lockout_secs() > 0 ==> locked == (lockout_left(
                final(self).attempts().get(ip@),
                final(self).max_attempts(),
                now,
            ) is Some),
    {
        if self.max_attempts == 0 {
            return false;
        }
        let fresh = LoginAttemptRecord { failed_count: 0, first_failure: now, locked_until: None };
        let mut record = map_get_or_insert(&mut self.attempts, ip.to_owned(), fresh);
        record.failed_count += 1;
        let locked = record.failed_count >= self.max_attempts;
        if locked {
            record.locked_until = Some(now + self.lockout_secs as u128 * NANOS_PER_SEC);
        }
        map_assign(&mut self.attempts, ip, record);
        proof {
            assert(self.attempts() =~= old(self).attempts().insert(ip@, record));
            if old(self).consistent() && old(self).lockout_secs() > 0 {
                law_answer_is_the_lockout(*old(self), ip@, now);
            }
        }
        locked
    }

    /// Records a failed login from `ip`. Returns whether `ip` is locked out by
    /// it.
    pub fn record_failure(&mut self, ip: &str) -> (locked: bool)
        requires
            old(self).max_attempts() != 0 ==> failures(old(self).attempts().get(ip@)) < u32::MAX,
        ensures
            locked == (old(self).max_attempts() != 0 && failures(old(self).attempts().get(ip@)) + 1
                >= old(self).max_attempts()),
            old(self).max_attempts() == 0 ==> final(self).attempts() == old(self).attempts(),
            old(self).max_attempts() != 0 ==> exists|now: u128|
                old(self).clock().reads(now) && final(self).attempts() == old(self).attempts().insert(
                    ip@,
                    #[trigger] after_failure(
                        old(self).attempts().get(ip@),
                        old(self).max_attempts(),
                        old(self).lockout_secs(),
                        now,
                    ),
                ),
            final(self).same_rules(old(self)),
            old(self).consistent() ==> final(self).consistent(),
    {
        let now = self.clock.now();
        self.record_failure_at(ip, now)
    }

    /// Forgets the failures of `ip`.
    pub fn clear(&mut self, ip: &str)
        ensures
            final(self).attempts() == old(self).attempts().remove(ip@),
            final(self).same_rules(old(self)),
            old(self).consistent() ==> final(self).consistent(),
    {
        map_remove(&mut self.attempts, ip);
    }
}

/// The record of an address after failures at the given times.
pub open spec fn after_failures(
    record: Option<LoginAttemptRecord>,
    max: u32,
    lockout_secs: u64,
    times: Seq<u128>,
) -> Option<LoginAttemptRecord>
    decreases times.len(),
{
    if times.len() == 0 {
        record
    } else {
        Some(
            after_failure(
                after_failures(record, max, lockout_secs, times.drop_last()),
                max,
                lockout_secs,
                times.last(),
            ),
        )
    }
}

/// From a clean record, an address is not locked out before it has failed
/// `max` times, and is locked out by every failure from that one on, each time
/// for the full lockout.
pub proof fn law_locks_out_at_the_limit(max: u32, lockout_secs: u64, times: Seq<u128>)
    requires
        max > 0,
        0 < times.len() <= u32::MAX,
        forall|i: int| 0 <= i < times.len() ==> #[trigger] times[i] <= MAX_NANOS,
    ensures
        after_failures(None, max, lockout_secs, times) == Some(
            LoginAttemptRecord {
                failed_count: times.len() as u32,
                first_failure: times[0],
                locked_until: if times.len() >= max {
                    Some((times.last() + lockout_secs * NANOS_PER_SEC) as u128)
                } else {
                    None
                },
            },
        ),
    decreases times.len(),
{
    let earlier = times.drop_last();
    if earlier.len() > 0 {
        assert forall|i: int| 0 <= i < earlier.len() implies #[trigger] earlier[i] <= MAX_NANOS by {
            assert(earlier[i] == times[i]);
        }
        law_locks_out_at_the_limit(max, lockout_secs, earlier);
    }
    reveal_with_fuel(after_failures, 2);
}

/// A lockout that a failure at `failed` sets off lasts for the lockout time
/// and no longer, and what is reported of it never exceeds that time by more
/// than the second that is counted in full.
pub proof fn law_lockout_lasts_as_configured(
    record: Option<LoginAttemptRecord>,
    max: u32,
    lockout_secs: u64,
    failed: u128,
    now: u128,
)
    requires
        max > 0,
        failures(record) < u32::MAX,
        failures(record) + 1 >= max,
        failed <= MAX_NANOS,
        failed <= now,
    ensures
        ({
            let left = lockout_left(
                Some(after_failure(record, max, lockout_secs, failed)),
                max,
                now,
            );
            &&& left is Some <==> now < failed + lockout_secs * NANOS_PER_SEC
            &&& left matches Some(secs) ==> 1 <= secs <= lockout_secs + 1
        }),
{
    let end = (failed + lockout_secs * NANOS_PER_SEC) as u128;
    assert(end == failed + lockout_secs * NANOS_PER_SEC);
}

/// What is answered to a failure is whether the address is locked out at that
/// moment, unless lockouts take no time.
pub proof fn law_answer_is_the_lockout(limiter: LoginRateLimiter, ip: Seq<char>, now: u128)
    requires
        limiter.consistent(),
        limiter.lockout_secs() > 0,
        limiter.max_attempts() != 0 ==> failures(limiter.attempts().get(ip)) < u32::MAX,
        now <= MAX_NANOS,
    ensures
        ({
            let max = limiter.max_attempts();
            let record = limiter.attempts().get(ip);
            let answer = max != 0 && failures(record) + 1 >= max;
            let after = if max == 0 {
                record
            } else {
                Some(after_failure(record, max, limiter.lockout_secs(), now))
            };
            answer == (lockout_left(after, max, now) is Some)
        }),
{
    let secs = limiter.lockout_secs();
    let end = (now + secs * NANOS_PER_SEC) as u128;
    assert(end == now + secs * NANOS_PER_SEC);
    if limiter.attempts().contains_key(ip) {
        assert(limiter.attempts()[ip].locked_until is Some ==> limiter.attempts()[ip].failed_count
            >= limiter.max_attempts());
    }
}

/// Where the limit is zero, nobody is ever locked out.
pub proof fn law_no_limit_no_lockout(record: Option<LoginAttemptRecord>, now: u128)
    ensures
        lockout_left(record, 0, now) is None,
{
}

/// Clearing an address ends its lockout and its count; other addresses keep
/// theirs, and a failure of one address is no failure of another.
pub proof fn law_addresses_are_independent(
    attempts: Map<Seq<char>, LoginAttemptRecord>,
    ip: Seq<char>,
    record: LoginAttemptRecord,
    other: Seq<char>,
    max: u32,
    now: u128,
)
    requires
        other != ip,
    ensures
        lockout_left(attempts.remove(ip).get(ip), max, now) is None,
        failures(attempts.remove(ip).get(ip)) == 0,
        attempts.remove(ip).get(other) == attempts.get(other),
        attempts.insert(ip, record).get(other) == attempts.get(other),
{
}

/// From a clean record, an address is locked out exactly if it has failed at
/// least `max` times and the lockout time has not passed since its last failure:
/// after fewer failures it is not locked out at any reading of the clock.
pub proof fn law_when_an_address_is_locked_out(
    max: u32,
    lockout_secs: u64,
    times: Seq<u128>,
    now: u128,
)
    requires
        times.len() <= u32::MAX,
        forall|i: int| 0 <= i < times.len() ==> #[trigger] times[i] <= MAX_NANOS,
    ensures
        lockout_left(after_failures(None, max, lockout_secs, times), max, now) is Some <==> max > 0
            && times.len() >= max && now < times.last() + lockout_secs * 1_000_000_000,
{
    if max > 0 && times.len() > 0 {
        law_locks_out_at_the_limit(max, lockout_secs, times);
        let end = (times.last() + lockout_secs * NANOS_PER_SEC) as u128;
        assert(times.last() == times[times.len() - 1]);
        assert(end == times.last() + lockout_secs * NANOS_PER_SEC);
    }
}

/// An address that has failed less often than the limit is not locked out,
/// whenever the clock is read.
pub proof fn law_below_the_limit_is_not_locked_out(
    limiter: LoginRateLimiter,
    ip: Seq<char>,
    now: u128,
)
    requires
        limiter.consistent(),
        limiter.attempts().contains_key(ip) ==> limiter.attempts()[ip].failed_count
            < limiter.max_attempts(),
    ensures
        lockout_left(limiter.attempts().get(ip), limiter.max_attempts(), now) is None,
{
}

/// An address without a record, or without a lockout in it, is not locked out.
/// Otherwise it is until the lockout ends, and the seconds that are reported,
/// less the one that has begun, do not reach beyond that end.
pub proof fn law_what_is_reported_of_a_lockout(
    record: LoginAttemptRecord,
    max: u32,
    now: u128,
)
    ensures
        lockout_left(None, max, now) is None,
        record.locked_until is None ==> lockout_left(Some(record), max, now) is None,
        record.locked_until matches Some(end) ==> (lockout_left(Some(record), max, now) is Some
            <==> max > 0 && now < end),
        record.locked_until matches Some(end) ==> (lockout_left(
            Some(record),
            max,
            now,
        ) matches Some(secs) ==> secs >= 1 && now + (secs - 1) * 1_000_000_000 <= end && (secs
            < u64::MAX ==> end < now + secs * 1_000_000_000)),
{
    if let Some(end) = record.locked_until {
        if now < end {
            let whole = (end - now) / (NANOS_PER_SEC as int);
            assert(whole * 1_000_000_000 <= end - now < (whole + 1) * 1_000_000_000);
        }
    }
}

/// A failure counts one more, keeps the time of the first, and sets a lockout of
/// the full length from this moment exactly if the limit is reached.
pub proof fn law_what_a_failure_does(
    record: LoginAttemptRecord,
    max: u32,
    lockout_secs: u64,
    now: u128,
)
    requires
        record.failed_count < u32::MAX,
        now <= MAX_NANOS,
    ensures
        ({
            let next = after_failure(Some(record), max, lockout_secs, now);
            let first = after_failure(None, max, lockout_secs, now);
            &&& next.failed_count == record.failed_count + 1
            &&& next.first_failure == record.first_failure
            &&& next.failed_count < max ==> next.locked_until == record.locked_until
            &&& next.failed_count >= max ==> next.locked_until is Some
                && next.locked_until->0 == now + lockout_secs * 1_000_000_000
            &&& first.failed_count == 1
            &&& first.first_failure == now
            &&& max > 1 ==> first.locked_until is None
            &&& max <= 1 ==> first.locked_until is Some && first.locked_until->0 == now
                + lockout_secs * 1_000_000_000
            &&& failures(Some(record)) == record.failed_count
            &&& failures(None) == 0
        }),
{
    assert((now + lockout_secs * NANOS_PER_SEC) as u128 == now + lockout_secs * 1_000_000_000);
}

/// Failing later never ends a lockout earlier.
pub proof fn law_later_failure_later_end(
    record: Option<LoginAttemptRecord>,
    max: u32,
    lockout_secs: u64,
    failed: u128,
    later: u128,
    now: u128,
)
    requires
        failures(record) < u32::MAX,
        failures(record) + 1 >= max,
        failed <= later <= MAX_NANOS,
        lockout_left(Some(after_failure(record, max, lockout_secs, failed)), max, now) is Some,
    ensures
        lockout_left(Some(after_failure(record, max, lockout_secs, later)), max, now) is Some,
{
    assert((failed + lockout_secs * NANOS_PER_SEC) as u128 == failed + lockout_secs * NANOS_PER_SEC);
    assert((later + lockout_secs * NANOS_PER_SEC) as u128 == later + lockout_secs * NANOS_PER_SEC);
}

/// Limiters with the same rules agree in the limit, the lockout time and the
/// clock; in a consistent one a lockout takes the limit.
pub proof fn law_what_the_rules_are(limiter: LoginRateLimiter, other: LoginRateLimiter, ip: Seq<char>)
    ensures
        limiter.same_rules(&other) <==> limiter.max_attempts() == other.max_attempts()
            && limiter.lockout_secs() == other.lockout_secs() && limiter.clock() == other.clock(),
        limiter.consistent() && limiter.attempts().contains_key(ip)
            && limiter.attempts()[ip].failed_count < limiter.max_attempts()
            ==> limiter.attempts()[ip].locked_until is None,
{
}

} // verus!
