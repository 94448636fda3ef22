//! A client that remembers what another client fetched.

use crate::cache::{
    answer_after, entries_after, lookup_at, warnings_after, CacheEntry, Lookup, TimedCache,
};
use crate::error::{with_context, FeedError};
use crate::http_client::HttpClient;
use crate::sequence::texts;
use crate::time::{current_time, TimeSpan, Timestamp};
use vstd::prelude::*;
use vstd::string::StringExecFns;

verus! {

/// A client in front of another one: what was fetched is kept by URL for a
/// span of time, and answered from there.
pub struct CachingHttpClient<C: HttpClient> {
    cache: FetchCache,
    delegate: C,
}

/// What was fetched, kept by URL for a span of time.
pub struct FetchCache {
    cache: TimedCache<Vec<u8>>,
}

/// The context given to the failure to fetch `url`.
pub open spec fn fetch_context(url: Seq<char>) -> Seq<char> {
    "Failed get cache http request "@ + url + ", or compute it"@
}

/// `given` is the answer `expected` to a request for `url`: the same bytes,
/// or the same failure told as the failure of that request.
pub open spec fn fetch_answers(
    given: Result<Vec<u8>, FeedError>,
    expected: Result<Vec<u8>, FeedError>,
    url: Seq<char>,
) -> bool {
    match expected {
        Ok(bytes) => given is Ok && given->Ok_0@ == bytes@,
        Err(cause) => {
            &&& given is Err
            &&& given->Err_0@.kind == cause@.kind
            &&& given->Err_0@.message == with_context(fetch_context(url), cause@.message)
        },
    }
}

/// A fetch of `url` that ended at `now` with `outcome` led from the cached
/// entries `before` to `after`, to the answer `answer`, and from the
/// warnings `warned_before` to `warned_after`: old bytes that are the
/// answer after a failure are warned of.
pub open spec fn fetch_settled(
    before: Map<Seq<char>, CacheEntry<Vec<u8>>>,
    ttl: TimeSpan,
    url: Seq<char>,
    now: Timestamp,
    outcome: Result<Vec<u8>, FeedError>,
    after: Map<Seq<char>, CacheEntry<Vec<u8>>>,
    answer: Result<Vec<u8>, FeedError>,
    warned_before: Seq<Seq<char>>,
    warned_after: Seq<Seq<char>>,
) -> bool {
    &&& after == entries_after(before, ttl, url, now, outcome)
    &&& fetch_answers(answer, answer_after(before, url, outcome), url)
    &&& warned_after == warnings_after(warned_before, before, url, outcome)
}

impl FetchCache {
    /// What is cached, by URL.
    pub closed spec fn cached(&self) -> Map<Seq<char>, CacheEntry<Vec<u8>>> {
        self.cache@
    }

    /// The span of time for which fetched bytes stay fresh.
    pub closed spec fn ttl(&self) -> TimeSpan {
        self.cache.ttl()
    }

    /// The warnings that wait to be taken: one for each time old bytes
    /// were the answer because the fetch failed.
    pub closed spec fn warnings(&self) -> Seq<Seq<char>> {
        self.cache.warnings()
    }

    /// Takes the warnings that wait; none wait after that.
    pub fn take_warnings(&mut self) -> (taken: Vec<String>)
        ensures
            texts(taken@) == old(self).warnings(),
            final(self).warnings() == Seq::<Seq<char>>::empty(),
            final(self).cached() == old(self).cached(),
            final(self).ttl() == old(self).ttl(),
    {
        self.cache.take_warnings()
    }

    /// A cache with nothing in it, in which fetched bytes stay fresh for
    /// `duration`.
    pub fn new(duration: TimeSpan) -> (cache: Self)
        ensures
            cache.ttl() == duration,
            cache.cached() == Map::<Seq<char>, CacheEntry<Vec<u8>>>::empty(),
            cache.warnings() == Seq::<Seq<char>>::empty(),
    {
        FetchCache { cache: TimedCache::from_expiration_duration_and_keys(duration, Vec::new()) }
    }

    /// The bytes cached for `url`, if they are fresh at `now`.
    pub fn fresh_bytes(&self, url: &str, now: &Timestamp) -> (bytes: Option<Vec<u8>>)
        ensures
            match lookup_at(self.cached(), url@, *now) {
                Lookup::Fresh(cached) => bytes is Some && bytes->Some_0@ == cached@,
                _ => bytes is None,
            },
    {
        match self.cache.lookup(url, now) {
            Lookup::Fresh(cached) => Some(cached.clone()),
            _ => None,
        }
    }

    /// Ends a fetch of `url` that gave `outcome` at the instant `now`:
    /// fetched bytes are cached and returned; after a failure the bytes
    /// cached for the URL are the answer, however old, and only where there
    /// are none the failure, told as the failure of this request.
    pub fn settle_fetch(
        &mut self,
        url: &str,
        now: &Timestamp,
        outcome: Result<Vec<u8>, FeedError>,
    ) -> (answer: Result<Vec<u8>, FeedError>)
        ensures
            final(self).ttl() == old(self).ttl(),
            fetch_settled(
                old(self).cached(),
                old(self).ttl(),
                url@,
                *now,
                outcome,
                final(self).cached(),
                answer,
                old(self).warnings(),
                final(self).warnings(),
            ),
    {
        match self.cache.settle(String::from_str(url), now, outcome) {
            Ok(bytes) => Ok(bytes),
            Err(failure) => {
                let mut context = String::from_str("Failed get cache http request ");
                context.append(url);
                context.append(", or compute it");
                Err(failure.cause.context(context.as_str()))
            },
        }
    }
}

impl<C: HttpClient> CachingHttpClient<C> {
    /// What is cached, by URL.
    pub closed spec fn cached(&self) -> Map<Seq<char>, CacheEntry<Vec<u8>>> {
        self.cache.cached()
    }

    /// The span of time for which fetched bytes stay fresh.
    pub closed spec fn ttl(&self) -> TimeSpan {
        self.cache.ttl()
    }

    /// The warnings that wait to be taken: one for each time old bytes
    /// were the answer because the fetch failed.
    pub closed spec fn warnings(&self) -> Seq<Seq<char>> {
        self.cache.warnings()
    }

    /// Takes the warnings that wait; none wait after that.
    pub fn take_warnings(&mut self) -> (taken: Vec<String>)
        ensures
            texts(taken@) == old(self).warnings(),
            final(self).warnings() == Seq::<Seq<char>>::empty(),
            final(self).cached() == old(self).cached(),
            final(self).ttl() == old(self).ttl(),
    {
        self.cache.take_warnings()
    }

    /// A client in front of `delegate` with nothing cached yet. The URLs
    /// that will be asked for need not be known: they are not looked at.
    pub fn new(delegate: C, duration: TimeSpan, _feed_urls: Vec<String>) -> (client: Self)
        ensures
            client.ttl() == duration,
            client.cached() == Map::<Seq<char>, CacheEntry<Vec<u8>>>::empty(),
            client.warnings() == Seq::<Seq<char>>::empty(),
    {
        CachingHttpClient { delegate, cache: FetchCache::new(duration) }
    }

    /// The bytes cached for `url`, if they are fresh at `now`.
    pub fn fresh_bytes(&self, url: &str, now: &Timestamp) -> (bytes: Option<Vec<u8>>)
        ensures
            match lookup_at(self.cached(), url@, *now) {
                Lookup::Fresh(cached) => bytes is Some && bytes->Some_0@ == cached@,
                _ => bytes is None,
            },
    {
        self.cache.fresh_bytes(url, now)
    }

    /// Ends a fetch of `url` that gave `outcome` at the instant `now`: see
    /// [`FetchCache::settle_fetch`].
    pub fn settle_fetch(
        &mut self,
        url: &str,
        now: &Timestamp,
        outcome: Result<Vec<u8>, FeedError>,
    ) -> (answer: Result<Vec<u8>, FeedError>)
        ensures
            final(self).ttl() == old(self).ttl(),
            fetch_settled(
                old(self).cached(),
                old(self).ttl(),
                url@,
                *now,
                outcome,
                final(self).cached(),
                answer,
                old(self).warnings(),
                final(self).warnings(),
            ),
    {
        self.cache.settle_fetch(url, now, outcome)
    }
}

impl<C: HttpClient> HttpClient for CachingHttpClient<C> {
    /// Answers from the cache where the bytes of `url` are fresh there.
    /// Otherwise the delegate fetches once, and the cache and the answer are
    /// those of [`CachingHttpClient::settle_fetch`] for what it gave. The
    /// clock is read before the lookup and again when the fetch has ended.
    fn get_bytes(&mut self, url: &str) -> (answer: Result<Vec<u8>, FeedError>)
        ensures
            final(self).ttl() == old(self).ttl(),
            exists|asked_at: Timestamp|
                match #[trigger] lookup_at(old(self).cached(), url@, asked_at) {
                    Lookup::Fresh(bytes) => {
                        &&& final(self).cached() == old(self).cached()
                        &&& final(self).warnings() == old(self).warnings()
                        &&& answer is Ok
                        &&& answer->Ok_0@ == bytes@
                    },
                    _ => exists|outcome: Result<Vec<u8>, FeedError>, fetched_at: Timestamp| #[trigger]
                        fetch_settled(
                            old(self).cached(),
                            old(self).ttl(),
                            url@,
                            fetched_at,
                            outcome,
                            final(self).cached(),
                            answer,
                            old(self).warnings(),
                            final(self).warnings(),
                        ),
                },
    {
        let asked_at = current_time();
        match self.fresh_bytes(url, &asked_at) {
            Some(bytes) => {
                assert(lookup_at(self.cached(), url@, asked_at) is Fresh);
                return Ok(bytes);
            },
            None => {},
        }
        let ghost before = self.cached();
        let ghost warned = self.warnings();
        let outcome = self.delegate.get_bytes(url);
        let fetched_at = current_time();
        let answer = self.settle_fetch(url, &fetched_at, outcome);
        assert(fetch_settled(
            before,
            self.ttl(),
            url@,
            fetched_at,
            outcome,
            self.cached(),
            answer,
            warned,
            self.warnings(),
        ));
        assert(!(lookup_at(before, url@, asked_at) is Fresh));
        answer
    }
}

} // verus!
