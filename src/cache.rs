//! One slot of the single-flight TTL cache: the decision a request takes
//! (serve a fresh value, serve a fresh error, wait for the refresh in flight,
//! or refresh) and how a refresh's result replaces what was cached. The caller
//! keeps one slot per operation name behind that name's lock.
use vstd::prelude::*;
use crate::power::elapsed;

verus! {

/// What a request does.
#[derive(Clone, Copy, Debug, PartialEq, Eq, Structural)]
pub enum CacheLookup {
    /// Serve the cached value.
    Fresh,
    /// Serve the cached error.
    FreshError,
    /// Another request is refreshing; wait for it and ask again.
    Wait,
    /// Run the operation, then report its result with `finish`.
    Refresh,
}

/// Cached result of one operation: a value or an error, each with the time (ms)
/// it was stored, and whether a refresh is in flight.
pub struct CacheSlot<T, E> {
    pub value: Option<(T, u64)>,
    pub error: Option<(E, u64)>,
    pub in_flight: bool,
}

/// An entry stored at `at` is fresh at `now` while less than `ttl` has passed.
pub open spec fn fresh(at: u64, now: u64, ttl: u64) -> bool {
    elapsed(now, at) < ttl
}

/// A request at `now`: the new slot and what the request does.
pub open spec fn cache_begin<T, E>(s: CacheSlot<T, E>, now: u64, ttl: u64, cache_errors: bool) -> (
    CacheSlot<T, E>,
    CacheLookup,
) {
    if s.value is Some && fresh(s.value.unwrap().1, now, ttl) {
        (s, CacheLookup::Fresh)
    } else if cache_errors && s.error is Some && fresh(s.error.unwrap().1, now, ttl) {
        (s, CacheLookup::FreshError)
    } else if s.in_flight {
        (s, CacheLookup::Wait)
    } else {
        (CacheSlot { in_flight: true, ..s }, CacheLookup::Refresh)
    }
}

/// The slot after a refresh ends at `now` with `result`: a success replaces the
/// value and clears the error; a failure clears the value and is kept only when
/// errors are cached.
pub open spec fn cache_finish<T, E>(s: CacheSlot<T, E>, result: Result<T, E>, now: u64, cache_errors: bool) -> CacheSlot<
    T,
    E,
> {
    match result {
        Ok(v) => CacheSlot { value: Some((v, now)), error: None, in_flight: false },
        Err(e) => CacheSlot {
            value: None,
            error: if cache_errors { Some((e, now)) } else { None },
            in_flight: false,
        },
    }
}

/// How many of the requests made at `times`, one after another with no refresh
/// finishing in between, run the operation.
pub open spec fn refreshes<T, E>(s: CacheSlot<T, E>, times: Seq<u64>, ttl: u64, cache_errors: bool) -> nat
    decreases times.len(),
{
    if times.len() == 0 {
        0
    } else {
        let (s2, l) = cache_begin(s, times[0], ttl, cache_errors);
        (if l == CacheLookup::Refresh { 1nat } else { 0nat }) + refreshes(s2, times.drop_first(), ttl, cache_errors)
    }
}

proof fn lemma_in_flight_no_refresh<T, E>(s: CacheSlot<T, E>, times: Seq<u64>, ttl: u64, cache_errors: bool)
    requires
        s.in_flight,
    ensures
        refreshes(s, times, ttl, cache_errors) == 0,
    decreases times.len(),
{
    if times.len() > 0 {
        let (s2, l) = cache_begin(s, times[0], ttl, cache_errors);
        lemma_in_flight_no_refresh(s2, times.drop_first(), ttl, cache_errors);
    }
}

/// Single flight: however many requests arrive while no refresh finishes, at
/// most one of them runs the operation, and none does while one is in flight.
pub proof fn lemma_single_flight<T, E>(s: CacheSlot<T, E>, times: Seq<u64>, ttl: u64, cache_errors: bool)
    ensures
        refreshes(s, times, ttl, cache_errors) <= 1,
        s.in_flight ==> refreshes(s, times, ttl, cache_errors) == 0,
    decreases times.len(),
{
    if s.in_flight {
        lemma_in_flight_no_refresh(s, times, ttl, cache_errors);
    } else if times.len() > 0 {
        let (s2, l) = cache_begin(s, times[0], ttl, cache_errors);
        if l == CacheLookup::Refresh {
            lemma_in_flight_no_refresh(s2, times.drop_first(), ttl, cache_errors);
        } else {
            lemma_single_flight(s2, times.drop_first(), ttl, cache_errors);
        }
    }
}

/// After a refresh stores a result at `at`, every request within the TTL is
/// served from the cache: a success as the value, and a failure, when errors
/// are cached, as the error. Without error caching the next request refreshes.
pub proof fn lemma_result_served_within_ttl<T, E>(
    s: CacheSlot<T, E>,
    result: Result<T, E>,
    at: u64,
    now: u64,
    ttl: u64,
    cache_errors: bool,
)
    requires
        fresh(at, now, ttl),
    ensures
        result is Ok ==> cache_begin(cache_finish(s, result, at, cache_errors), now, ttl, cache_errors).1
            == CacheLookup::Fresh,
        result is Err && cache_errors ==> cache_begin(cache_finish(s, result, at, cache_errors), now, ttl, cache_errors).1
            == CacheLookup::FreshError,
        result is Err && !cache_errors ==> cache_begin(cache_finish(s, result, at, cache_errors), now, ttl, cache_errors).1
            == CacheLookup::Refresh,
{
}

/// What each of the requests made at `times`, one after another, does.
pub open spec fn lookups<T, E>(s: CacheSlot<T, E>, times: Seq<u64>, ttl: u64, cache_errors: bool) -> Seq<CacheLookup>
    decreases times.len(),
{
    if times.len() == 0 {
        seq![]
    } else {
        let (s2, l) = cache_begin(s, times[0], ttl, cache_errors);
        seq![l] + lookups(s2, times.drop_first(), ttl, cache_errors)
    }
}

proof fn lemma_lookups_len<T, E>(s: CacheSlot<T, E>, times: Seq<u64>, ttl: u64, cache_errors: bool)
    ensures
        lookups(s, times, ttl, cache_errors).len() == times.len(),
    decreases times.len(),
{
    if times.len() > 0 {
        let (s2, l) = cache_begin(s, times[0], ttl, cache_errors);
        lemma_lookups_len(s2, times.drop_first(), ttl, cache_errors);
    }
}

/// A stored result is served: every request within the TTL after a refresh
/// stored `result` at `at` is served from the cache (the value after a success,
/// the error after a failure when errors are cached), and none runs the
/// operation.
pub proof fn lemma_served_until_expiry<T, E>(
    s: CacheSlot<T, E>,
    result: Result<T, E>,
    at: u64,
    times: Seq<u64>,
    ttl: u64,
    cache_errors: bool,
)
    requires
        result is Ok || cache_errors,
        forall|i: int| 0 <= i < times.len() ==> fresh(at, #[trigger] times[i], ttl),
    ensures
        refreshes(cache_finish(s, result, at, cache_errors), times, ttl, cache_errors) == 0,
        lookups(cache_finish(s, result, at, cache_errors), times, ttl, cache_errors).len() == times.len(),
        forall|i: int|
            0 <= i < times.len() ==> #[trigger] lookups(cache_finish(s, result, at, cache_errors), times, ttl, cache_errors)[i]
                == (if result is Ok { CacheLookup::Fresh } else { CacheLookup::FreshError }),
    decreases times.len(),
{
    let f = cache_finish(s, result, at, cache_errors);
    lemma_lookups_len(f, times, ttl, cache_errors);
    if times.len() > 0 {
        let rest = times.drop_first();
        assert forall|i: int| 0 <= i < rest.len() implies fresh(at, #[trigger] rest[i], ttl) by {
            assert(rest[i] == times[i + 1]);
        }
        lemma_served_until_expiry(s, result, at, rest, ttl, cache_errors);
        let expected = if result is Ok { CacheLookup::Fresh } else { CacheLookup::FreshError };
        assert(cache_begin(f, times[0], ttl, cache_errors) == (f, expected));
        let all = lookups(f, times, ttl, cache_errors);
        assert(all == seq![expected] + lookups(f, rest, ttl, cache_errors));
        assert forall|i: int| 0 <= i < times.len() implies #[trigger] all[i] == expected by {
            if i > 0 {
                assert(all[i] == lookups(f, rest, ttl, cache_errors)[i - 1]);
            }
        }
    }
}

/// Concurrent callers for one key: of the requests that arrive before a
/// refresh finishes, at most one runs the operation; once it stores its result
/// at `at` (whatever other requests did meanwhile, the slot then holds that
/// result), the callers that waited and ask again within the TTL are all served
/// that same result, a value or, with errors cached, the error, and none runs
/// the operation. In all, the operation runs at most once.
pub proof fn lemma_concurrent_callers<T, E>(
    s: CacheSlot<T, E>,
    before: Seq<u64>,
    during: CacheSlot<T, E>,
    result: Result<T, E>,
    at: u64,
    retries: Seq<u64>,
    ttl: u64,
    cache_errors: bool,
)
    requires
        result is Ok || cache_errors,
        forall|i: int| 0 <= i < retries.len() ==> fresh(at, #[trigger] retries[i], ttl),
    ensures
        refreshes(s, before, ttl, cache_errors) + refreshes(cache_finish(during, result, at, cache_errors), retries, ttl, cache_errors) <= 1,
        cache_finish(during, result, at, cache_errors).value == match result {
            Ok(v) => Some((v, at)),
            Err(_) => None,
        },
        cache_finish(during, result, at, cache_errors).error == match result {
            Ok(_) => None,
            Err(e) => Some((e, at)),
        },
        forall|i: int|
            0 <= i < retries.len() ==> #[trigger] lookups(cache_finish(during, result, at, cache_errors), retries, ttl, cache_errors)[i]
                == (if result is Ok { CacheLookup::Fresh } else { CacheLookup::FreshError }),
{
    lemma_single_flight(s, before, ttl, cache_errors);
    lemma_served_until_expiry(during, result, at, retries, ttl, cache_errors);
}

fn is_fresh(at: u64, now: u64, ttl: u64) -> (r: bool)
    ensures
        r == fresh(at, now, ttl),
{
    (if now >= at { now - at } else { 0 }) < ttl
}

impl<T, E> CacheSlot<T, E> {
    /// An empty slot.
    pub fn new() -> (r: CacheSlot<T, E>)
        ensures
            r.value is None,
            r.error is None,
            !r.in_flight,
    {
        CacheSlot { value: None, error: None, in_flight: false }
    }

    /// Decide what a request at `now_ms` does; a `Refresh` marks the slot as in
    /// flight.
    pub fn begin(&mut self, now_ms: u64, ttl_ms: u64, cache_errors: bool) -> (r: CacheLookup)
        ensures
            (*final(self), r) == cache_begin(*old(self), now_ms, ttl_ms, cache_errors),
    {
        if let Some((_, at)) = &self.value {
            if is_fresh(*at, now_ms, ttl_ms) {
                return CacheLookup::Fresh;
            }
        }
        if cache_errors {
            if let Some((_, at)) = &self.error {
                if is_fresh(*at, now_ms, ttl_ms) {
                    return CacheLookup::FreshError;
                }
            }
        }
        if self.in_flight {
            CacheLookup::Wait
        } else {
            self.in_flight = true;
            CacheLookup::Refresh
        }
    }

    /// Store the result of the refresh that ended at `now_ms`.
    pub fn finish(&mut self, result: Result<T, E>, now_ms: u64, cache_errors: bool)
        ensures
            *final(self) == cache_finish(*old(self), result, now_ms, cache_errors),
    {
        match result {
            Ok(v) => {
                self.value = Some((v, now_ms));
                self.error = None;
            },
            Err(e) => {
                self.value = None;
                self.error = if cache_errors { Some((e, now_ms)) } else { None };
            },
        }
        self.in_flight = false;
    }

    /// The cached value, if any.
    pub fn value(&self) -> (r: Option<&T>)
        ensures
            r == match self.value {
                Some((v, _)) => Some(&v),
                None => None::<&T>,
            },
    {
        match &self.value {
            Some((v, _)) => Some(v),
            None => None,
        }
    }

    /// The cached error, if any.
    pub fn error(&self) -> (r: Option<&E>)
        ensures
            r == match self.error {
                Some((e, _)) => Some(&e),
                None => None::<&E>,
            },
    {
        match &self.error {
            Some((e, _)) => Some(e),
            None => None,
        }
    }
}

} // verus!
