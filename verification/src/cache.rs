//! A cache whose entries expire, and which answers with an expired value
//! rather than with the failure to compute a new one.

use crate::sequence::texts;
use crate::time::{current_time, TimeSpan, Timestamp};
use vstd::string::StringExecFns;
use vstd::hash_map::StringHashMap;
use vstd::prelude::*;

verus! {

/// A cached value and the instant from which it counts as expired.
#[derive(Clone, Debug, PartialEq)]
pub struct CacheEntry<V> {
    pub expiration_date_time: Timestamp,
    pub value: V,
}

/// What the cache knows of a key at some instant.
#[derive(Debug, PartialEq)]
pub enum Lookup<V> {
    /// A value that has not expired.
    Fresh(V),
    /// A value that has expired.
    Stale(V),
    /// No value.
    Missing,
}

/// The failure to compute a value for a key of which nothing was cached.
#[derive(Debug, PartialEq)]
pub struct ComputeError<E> {
    pub key: String,
    pub cause: E,
}

/// Values by key, each with its expiration, all computed to last for the
/// same span of time.
#[verifier::reject_recursive_types(V)]
pub struct TimedCache<V> {
    expiration_duration: TimeSpan,
    entries: StringHashMap<CacheEntry<V>>,
    warnings: Vec<String>,
}

/// The instant at which a value computed at `now` expires.
pub open spec fn expiration_after(now: Timestamp, ttl: TimeSpan) -> Timestamp
    recommends
        now.can_add(ttl),
{
    Timestamp { seconds: now.plus(ttl).0 as i64, nanos: now.plus(ttl).1 as u32 }
}

/// What the entries say of `key` at the instant `now`: a value is fresh as
/// long as `now` lies before its expiration.
pub open spec fn lookup_at<V>(
    entries: Map<Seq<char>, CacheEntry<V>>,
    key: Seq<char>,
    now: Timestamp,
) -> Lookup<V> {
    if !entries.contains_key(key) {
        Lookup::Missing
    } else if now.before(entries[key].expiration_date_time) {
        Lookup::Fresh(entries[key].value)
    } else {
        Lookup::Stale(entries[key].value)
    }
}

/// The entries after a computation for `key` has ended at `now`: a computed
/// value takes the place of what was there, a failure changes nothing. A
/// value whose expiration cannot be held is not kept.
pub open spec fn entries_after<V, E>(
    entries: Map<Seq<char>, CacheEntry<V>>,
    ttl: TimeSpan,
    key: Seq<char>,
    now: Timestamp,
    outcome: Result<V, E>,
) -> Map<Seq<char>, CacheEntry<V>> {
    match outcome {
        Ok(value) => if now.can_add(ttl) {
            entries.insert(
                key,
                CacheEntry { expiration_date_time: expiration_after(now, ttl), value },
            )
        } else {
            entries
        },
        Err(_) => entries,
    }
}

/// The answer after a computation for `key` has ended: the computed value;
/// after a failure the value that was cached, however old; the failure
/// where nothing was cached.
pub open spec fn answer_after<V, E>(
    entries: Map<Seq<char>, CacheEntry<V>>,
    key: Seq<char>,
    outcome: Result<V, E>,
) -> Result<V, E> {
    match outcome {
        Ok(value) => Ok(value),
        Err(cause) => if entries.contains_key(key) {
            Ok(entries[key].value)
        } else {
            Err(cause)
        },
    }
}

/// The warning that an old value was the answer for `key`, because no new
/// one could be computed.
pub open spec fn stale_warning(key: Seq<char>) -> Seq<char> {
    "Failed to compute a new value for "@ + key
        + " after expiration. The previous value was used instead."@
}

/// The warnings after a computation for `key` has ended: one more where
/// the computation failed and the value that was cached is the answer.
pub open spec fn warnings_after<V, E>(
    warnings: Seq<Seq<char>>,
    entries: Map<Seq<char>, CacheEntry<V>>,
    key: Seq<char>,
    outcome: Result<V, E>,
) -> Seq<Seq<char>> {
    if outcome is Err && entries.contains_key(key) {
        warnings.push(stale_warning(key))
    } else {
        warnings
    }
}

/// `given` is the answer `expected`: a clone of its value, or its failure
/// together with the key.
pub open spec fn answers<V: Clone, E>(
    given: Result<V, ComputeError<E>>,
    expected: Result<V, E>,
    key: Seq<char>,
) -> bool {
    match expected {
        Ok(value) => given is Ok && cloned(value, given->Ok_0),
        Err(cause) => given is Err && given->Err_0.cause == cause && given->Err_0.key@ == key,
    }
}

impl<V> View for TimedCache<V> {
    type V = Map<Seq<char>, CacheEntry<V>>;

    closed spec fn view(&self) -> Map<Seq<char>, CacheEntry<V>> {
        self.entries@
    }
}

impl<V> TimedCache<V> {
    /// The span of time for which a computed value stays fresh.
    pub closed spec fn ttl(&self) -> TimeSpan {
        self.expiration_duration
    }

    /// The warnings that wait to be taken: one for each time an old value
    /// was the answer because no new one could be computed.
    pub closed spec fn warnings(&self) -> Seq<Seq<char>> {
        texts(self.warnings@)
    }

    /// Takes the warnings that wait; none wait after that.
    pub fn take_warnings(&mut self) -> (taken: Vec<String>)
        ensures
            texts(taken@) == old(self).warnings(),
            final(self).warnings() == Seq::<Seq<char>>::empty(),
            final(self)@ == old(self)@,
            final(self).ttl() == old(self).ttl(),
    {
        let mut taken: Vec<String> = Vec::new();
        std::mem::swap(&mut self.warnings, &mut taken);
        assert(texts(self.warnings@) =~= Seq::<Seq<char>>::empty());
        taken
    }

    /// An empty cache whose values stay fresh for `duration`. The keys that
    /// will be asked for need not be known: they are not looked at.
    pub fn from_expiration_duration_and_keys(duration: TimeSpan, _keys: Vec<String>) -> (cache:
        TimedCache<V>)
        ensures
            cache.ttl() == duration,
            cache@ == Map::<Seq<char>, CacheEntry<V>>::empty(),
            cache.warnings() == Seq::<Seq<char>>::empty(),
    {
        TimedCache {
            expiration_duration: duration,
            entries: StringHashMap::new(),
            warnings: Vec::new(),
        }
    }

    /// Looks a key up at the instant `now`.
    pub fn lookup<'a>(&'a self, key: &str, now: &Timestamp) -> (found: Lookup<&'a V>)
        ensures
            match lookup_at(self@, key@, *now) {
                Lookup::Fresh(value) => found == Lookup::Fresh(&value),
                Lookup::Stale(value) => found == Lookup::Stale(&value),
                Lookup::Missing => found == Lookup::<&V>::Missing,
            },
    {
        match self.entries.get(key) {
            None => Lookup::Missing,
            Some(entry) => if now.is_before(&entry.expiration_date_time) {
                Lookup::Fresh(&entry.value)
            } else {
                Lookup::Stale(&entry.value)
            },
        }
    }

    /// The entry for a value computed at `now`.
    pub fn new_cache_entry(&self, value: V, now: &Timestamp) -> (entry: Option<CacheEntry<V>>)
        ensures
            entry.is_some() == now.can_add(self.ttl()),
            entry.is_some() ==> entry.unwrap() == (CacheEntry {
                expiration_date_time: expiration_after(*now, self.ttl()),
                value,
            }),
    {
        match now.checked_add(&self.expiration_duration) {
            None => None,
            Some(expiration_date_time) => Some(CacheEntry { expiration_date_time, value }),
        }
    }
}

/// A computation for `key` that ended at `now` with `outcome` led from the
/// entries `before` to the entries `after`, to the answer `answer`, and
/// from the warnings `warned_before` to `warned_after`.
pub open spec fn settled<V: Clone, E>(
    before: Map<Seq<char>, CacheEntry<V>>,
    ttl: TimeSpan,
    key: Seq<char>,
    now: Timestamp,
    outcome: Result<V, E>,
    after: Map<Seq<char>, CacheEntry<V>>,
    answer: Result<V, ComputeError<E>>,
    warned_before: Seq<Seq<char>>,
    warned_after: Seq<Seq<char>>,
) -> bool {
    &&& after == entries_after(before, ttl, key, now, outcome)
    &&& answers(answer, answer_after(before, key, outcome), key)
    &&& warned_after == warnings_after(warned_before, before, key, outcome)
}

impl<V: Clone> TimedCache<V> {
    /// Ends a computation for `key` that gave `outcome` at the instant `now`.
    /// A computed value is kept, to expire one time-to-live after `now`, and
    /// returned. After a failure the cache stays as it is, and the answer is
    /// the value it holds for the key, fresh or not; only where it holds none
    /// is the failure handed on, with the key.
    pub fn settle<E>(&mut self, key: String, now: &Timestamp, outcome: Result<V, E>) -> (answer:
        Result<V, ComputeError<E>>)
        ensures
            final(self).ttl() == old(self).ttl(),
            settled(
                old(self)@,
                old(self).ttl(),
                key@,
                *now,
                outcome,
                final(self)@,
                answer,
                old(self).warnings(),
                final(self).warnings(),
            ),
    {
        match outcome {
            Ok(value) => {
                let answer = value.clone();
                match self.new_cache_entry(value, now) {
                    Some(entry) => {
                        self.entries.insert(key, entry);
                    },
                    None => {},
                }
                Ok(answer)
            },
            Err(cause) => match self.entries.get(key.as_str()) {
                Some(entry) => {
                    let answer = entry.value.clone();
                    let mut warning = String::from_str("Failed to compute a new value for ");
                    warning.append(key.as_str());
                    warning.append(" after expiration. The previous value was used instead.");
                    let ghost before = self.warnings@;
                    self.warnings.push(warning);
                    assert(texts(self.warnings@) =~= texts(before).push(warning@));
                    Ok(answer)
                },
                None => Err(ComputeError { key, cause }),
            },
        }
    }

    /// Answers with the value of `key` at the instant `now`. A value that
    /// is fresh at `now` is returned as it is, and `compute` is not run: it
    /// need not even be fit to run. Otherwise `compute` runs once, and the
    /// cache and the answer are those of [`TimedCache::settle`] for its
    /// outcome at `now`.
    pub fn get_or_compute_at<E, F: FnOnce() -> Result<V, E>>(
        &mut self,
        key: String,
        now: &Timestamp,
        compute: F,
    ) -> (answer: Result<V, ComputeError<E>>)
        requires
            lookup_at(old(self)@, key@, *now) is Fresh || compute.requires(()),
        ensures
            final(self).ttl() == old(self).ttl(),
            match lookup_at(old(self)@, key@, *now) {
                Lookup::Fresh(value) => {
                    &&& final(self)@ == old(self)@
                    &&& final(self).warnings() == old(self).warnings()
                    &&& answer is Ok
                    &&& cloned(value, answer->Ok_0)
                },
                _ => exists|outcome: Result<V, E>|
                    {
                        &&& compute.ensures((), outcome)
                        &&& #[trigger] settled(
                            old(self)@,
                            old(self).ttl(),
                            key@,
                            *now,
                            outcome,
                            final(self)@,
                            answer,
                            old(self).warnings(),
                            final(self).warnings(),
                        )
                    },
            },
    {
        match self.lookup(key.as_str(), now) {
            Lookup::Fresh(value) => {
                let answer = value.clone();
                return Ok(answer);
            },
            _ => {},
        }
        let outcome = compute();
        let ghost before = self@;
        let ghost warned = self.warnings();
        let answer = self.settle(key, now, outcome);
        assert(settled(
            before,
            self.ttl(),
            key@,
            *now,
            outcome,
            self@,
            answer,
            warned,
            self.warnings(),
        ));
        answer
    }

    /// Answers with the value of `key`. A fresh value is returned as it is
    /// and `compute` is not run. Otherwise `compute` runs once, and the cache
    /// and the answer are those of [`TimedCache::settle`] for its outcome.
    /// The clock is read before the lookup and again when `compute` has
    /// ended.
    pub fn get_or_compute<E, F: FnOnce() -> Result<V, E>>(&mut self, key: String, compute: F) -> (answer:
        Result<V, ComputeError<E>>)
        requires
            compute.requires(()),
        ensures
            final(self).ttl() == old(self).ttl(),
            exists|asked_at: Timestamp|
                match #[trigger] lookup_at(old(self)@, key@, asked_at) {
                    Lookup::Fresh(value) => {
                        &&& final(self)@ == old(self)@
                        &&& final(self).warnings() == old(self).warnings()
                        &&& answer is Ok
                        &&& cloned(value, answer->Ok_0)
                    },
                    _ => exists|outcome: Result<V, E>, computed_at: Timestamp|
                        {
                            &&& compute.ensures((), outcome)
                            &&& #[trigger] settled(
                                old(self)@,
                                old(self).ttl(),
                                key@,
                                computed_at,
                                outcome,
                                final(self)@,
                                answer,
                                old(self).warnings(),
                                final(self).warnings(),
                            )
                        },
                },
    {
        let asked_at = current_time();
        match self.lookup(key.as_str(), &asked_at) {
            Lookup::Fresh(value) => {
                let answer = value.clone();
                assert(lookup_at(self@, key@, asked_at) is Fresh);
                return Ok(answer);
            },
            _ => {},
        }
        let outcome = compute();
        let computed_at = current_time();
        let ghost before = self@;
        let ghost warned = self.warnings();
        let answer = self.settle(key, &computed_at, outcome);
        assert(settled(
            before,
            self.ttl(),
            key@,
            computed_at,
            outcome,
            self@,
            answer,
            warned,
            self.warnings(),
        ));
        assert(!(lookup_at(before, key@, asked_at) is Fresh));
        answer
    }
}

/// A value that stays fresh for a span longer than nothing is fresh at the
/// instant at which it was computed.
pub proof fn lemma_fresh_at_once(computed_at: Timestamp, ttl: TimeSpan)
    requires
        ttl.is_positive(),
        computed_at.can_add(ttl),
    ensures
        computed_at.before(expiration_after(computed_at, ttl)),
{
}

/// After a value was computed for a key, every lookup of the key at an
/// instant before the value's expiration finds that value, fresh: nothing is
/// computed again.
pub proof fn lemma_hit_within_ttl<V, E>(
    entries: Map<Seq<char>, CacheEntry<V>>,
    ttl: TimeSpan,
    key: Seq<char>,
    computed_at: Timestamp,
    value: V,
    asked_at: Timestamp,
)
    requires
        computed_at.can_add(ttl),
        asked_at.before(expiration_after(computed_at, ttl)),
    ensures
        lookup_at(
            entries_after(entries, ttl, key, computed_at, Ok::<V, E>(value)),
            key,
            asked_at,
        ) == Lookup::Fresh(value),
{
}

/// From its expiration on a cached value is stale. A computation that then
/// succeeds is answered with the new value, which takes the place of the
/// old one and expires one time-to-live after it was computed.
pub proof fn lemma_expired_then_computed<V, E>(
    entries: Map<Seq<char>, CacheEntry<V>>,
    ttl: TimeSpan,
    key: Seq<char>,
    asked_at: Timestamp,
    computed_at: Timestamp,
    value: V,
)
    requires
        entries.contains_key(key),
        asked_at.at_or_after(entries[key].expiration_date_time),
        computed_at.can_add(ttl),
    ensures
        lookup_at(entries, key, asked_at) == Lookup::Stale(entries[key].value),
        answer_after(entries, key, Ok::<V, E>(value)) == Ok::<V, E>(value),
        entries_after(entries, ttl, key, computed_at, Ok::<V, E>(value))[key] == (CacheEntry {
            expiration_date_time: expiration_after(computed_at, ttl),
            value,
        }),
{
}

/// A computation that fails for a key of which a value is cached is answered
/// with that value, expired or not, leaves the cache as it was, and is
/// warned of.
pub proof fn lemma_stale_on_failure<V, E>(
    entries: Map<Seq<char>, CacheEntry<V>>,
    ttl: TimeSpan,
    key: Seq<char>,
    computed_at: Timestamp,
    cause: E,
)
    requires
        entries.contains_key(key),
    ensures
        answer_after(entries, key, Err::<V, E>(cause)) == Ok::<V, E>(entries[key].value),
        entries_after(entries, ttl, key, computed_at, Err::<V, E>(cause)) == entries,
        forall|warnings: Seq<Seq<char>>| #[trigger]
            warnings_after(warnings, entries, key, Err::<V, E>(cause)) == warnings.push(
                stale_warning(key),
            ),
{
}

/// A key of which nothing is cached is missing at every instant, and a
/// computation that fails for it is answered with the failure.
pub proof fn lemma_failure_on_cold_miss<V, E>(
    entries: Map<Seq<char>, CacheEntry<V>>,
    ttl: TimeSpan,
    key: Seq<char>,
    asked_at: Timestamp,
    computed_at: Timestamp,
    cause: E,
)
    requires
        !entries.contains_key(key),
    ensures
        lookup_at(entries, key, asked_at) == Lookup::<V>::Missing,
        answer_after(entries, key, Err::<V, E>(cause)) == Err::<V, E>(cause),
        entries_after(entries, ttl, key, computed_at, Err::<V, E>(cause)) == entries,
{
}

/// A computation for one key changes what the cache holds of no other key.
pub proof fn lemma_other_keys_untouched<V, E>(
    entries: Map<Seq<char>, CacheEntry<V>>,
    ttl: TimeSpan,
    key: Seq<char>,
    computed_at: Timestamp,
    outcome: Result<V, E>,
    other: Seq<char>,
    asked_at: Timestamp,
)
    requires
        other != key,
    ensures
        lookup_at(entries_after(entries, ttl, key, computed_at, outcome), other, asked_at)
            == lookup_at(entries, other, asked_at),
{
}

} // verus!
