//! The aggregator service: cache consultation, combination of the provider
//! results of one fan-out, error unification, and cache population.
//!
//! Providers do network work and are driven outside this library: a caller
//! first asks `forecast_cached`; only on a miss does it fetch from every
//! configured provider concurrently and hand the collected results — one
//! per provider, in provider order — to `forecast_fetched`, which either
//! combines and stores them or fails with the first provider error. A fresh
//! cache hit therefore never contacts a provider.

use vstd::prelude::*;
use crate::cache::{Cache, CacheEntry, spec_lookup, spec_store};
use crate::error::{AggregationError, ProviderError, aggregation_prefix};
use crate::forecast::{Forecast, day_mean};
use crate::position::Pos;

verus! {

/// The forecasts of a fan-out in which every provider succeeded.
pub open spec fn ok_forecasts(results: Seq<Result<Forecast, ProviderError>>) -> Seq<Forecast> {
    results.map_values(|res: Result<Forecast, ProviderError>| res->Ok_0)
}

/// Every provider of the fan-out succeeded.
pub open spec fn all_ok(results: Seq<Result<Forecast, ProviderError>>) -> bool {
    forall|i: int| 0 <= i < results.len() ==> results[i] is Ok
}

/// Index of the first failed result at or after `i`, or -1 when none is.
pub open spec fn first_err_from(results: Seq<Result<Forecast, ProviderError>>, i: int) -> int
    decreases results.len() - i,
{
    if i < 0 || i >= results.len() {
        -1
    } else if results[i] is Err {
        i
    } else {
        first_err_from(results, i + 1)
    }
}

/// Index of the first failed result of a fan-out, or -1 when all succeeded.
pub open spec fn first_err(results: Seq<Result<Forecast, ProviderError>>) -> int {
    first_err_from(results, 0)
}

/// The scan may start past any prefix of successes.
proof fn lemma_first_err_skip(results: Seq<Result<Forecast, ProviderError>>, j: int)
    requires
        0 <= j <= results.len(),
        forall|t: int| 0 <= t < j ==> results[t] is Ok,
    ensures
        first_err(results) == first_err_from(results, j),
    decreases j,
{
    if j > 0 {
        lemma_first_err_skip(results, j - 1);
    }
}

/// A fan-out fails exactly when some provider failed, and the first failure
/// index points at a failure preceded by successes alone.
pub proof fn lemma_first_err_found(results: Seq<Result<Forecast, ProviderError>>)
    ensures
        (first_err(results) == -1) == all_ok(results),
        first_err(results) >= 0 ==> {
            let i = first_err(results);
            &&& i < results.len()
            &&& results[i] is Err
            &&& forall|t: int| 0 <= t < i ==> results[t] is Ok
        },
    decreases results.len(),
{
    lemma_first_err_found_from(results, 0);
}

proof fn lemma_first_err_found_from(results: Seq<Result<Forecast, ProviderError>>, j: int)
    requires
        0 <= j,
    ensures
        (first_err_from(results, j) == -1) == (forall|t: int|
            j <= t < results.len() ==> results[t] is Ok),
        first_err_from(results, j) >= 0 ==> {
            let i = first_err_from(results, j);
            &&& j <= i < results.len()
            &&& results[i] is Err
            &&& forall|t: int| j <= t < i ==> results[t] is Ok
        },
    decreases results.len() - j,
{
    if j < results.len() && !(results[j as int] is Err) {
        lemma_first_err_found_from(results, j + 1);
    }
}

/// A configuration mistake: the service was handed no providers at all.
#[derive(Clone, Copy, PartialEq, Eq, Structural, Debug)]
pub struct ZeroProvidersError;

impl ZeroProvidersError {
    /// The description of the misconfiguration.
    pub fn message(&self) -> (r: &'static str)
        ensures
            r@ == "tried to initialize weather service with zero providers"@,
    {
        "tried to initialize weather service with zero providers"
    }
}

/// The aggregation-and-caching service. It is configured with the number of
/// upstream providers (the providers themselves are driven by the caller)
/// and owns the forecast cache.
#[derive(Debug)]
pub struct Service {
    provider_count: usize,
    cache: Cache,
}

impl Service {
    /// The service is always configured with at least one provider.
    pub closed spec fn wf(&self) -> bool {
        self.provider_count >= 1
    }

    /// How many providers every fan-out must cover.
    pub closed spec fn providers(&self) -> int {
        self.provider_count as int
    }

    /// The cache contents.
    pub closed spec fn cache_view(&self) -> Seq<(Pos, CacheEntry)> {
        self.cache@
    }

    /// A service over `provider_count` providers and an empty cache.
    ///
    /// A zero provider count is a fatal configuration error, reported at
    /// construction and never at request time.
    pub fn new(provider_count: usize) -> (r: Result<Service, ZeroProvidersError>)
        ensures
            match r {
                Ok(s) => {
                    &&& provider_count >= 1
                    &&& s.wf()
                    &&& s.providers() == provider_count
                    &&& s.cache_view() =~= Seq::<(Pos, CacheEntry)>::empty()
                },
                Err(_) => provider_count == 0,
            },
    {
        if provider_count == 0 {
            Err(ZeroProvidersError)
        } else {
            Ok(Service { provider_count, cache: Cache::new() })
        }
    }

    /// The number of configured providers.
    pub fn provider_count(&self) -> (r: usize)
        ensures
            r == self.providers(),
    {
        self.provider_count
    }

    /// The fast path: answer from the cache alone. `Some` exactly when the
    /// cache holds an entry for `pos` computed `today`; on `Some` the caller
    /// returns it without contacting any provider.
    pub fn forecast_cached(&self, pos: &Pos, today: i64) -> (r: Option<Forecast>)
        ensures
            r == spec_lookup(self.cache_view(), *pos, today),
    {
        self.cache.lookup(pos, today)
    }

    /// The slow path, after a miss: combine the collected fan-out results,
    /// one per provider in provider order.
    ///
    /// If every provider succeeded, the result is the element-wise mean of
    /// their forecasts, stored in the cache under `(pos, today)` and
    /// returned. If any provider failed, the whole operation fails with the
    /// first failure wrapped under the fixed prefix, and the cache is left
    /// untouched.
    pub fn forecast_fetched(
        &mut self,
        pos: &Pos,
        today: i64,
        results: &Vec<Result<Forecast, ProviderError>>,
    ) -> (r: Result<Forecast, AggregationError>)
        requires
            old(self).wf(),
            results@.len() == old(self).providers(),
        ensures
            final(self).wf(),
            final(self).providers() == old(self).providers(),
            (r is Ok) == all_ok(results@),
            r is Err ==> final(self).cache_view() =~= old(self).cache_view(),
            r is Err ==> r->Err_0@ == aggregation_prefix() + results@[first_err(results@)]->Err_0@,
            r is Ok ==> forall|d: int|
                0 <= d < 5 ==> r->Ok_0.temps@[d] == day_mean(ok_forecasts(results@), d),
            r is Ok ==> final(self).cache_view() =~= spec_store(
                old(self).cache_view(),
                *pos,
                CacheEntry { computed_day: today, forecast: r->Ok_0 },
            ),
    {
        proof {
            lemma_first_err_found(results@);
        }
        match find_first_err(results) {
            Some(i) => {
                match &results[i] {
                    Result::Err(cause) => Err(AggregationError::wrap(cause)),
                    Result::Ok(_) => {
                        // Unreachable: the found index names a failure.
                        proof {
                            assert(false);
                        }
                        Err(AggregationError::wrap(&ProviderError::new(String::new())))
                    },
                }
            },
            None => {
                let oks = collect_forecasts(results);
                let combined = crate::forecast::average(&oks);
                self.cache.store(pos, today, combined);
                Ok(combined)
            },
        }
    }
}

/// Index of the first failed result, if any provider failed.
fn find_first_err(results: &Vec<Result<Forecast, ProviderError>>) -> (r: Option<usize>)
    ensures
        match r {
            Some(i) => i < results@.len() && first_err(results@) == i,
            None => first_err(results@) == -1,
        },
{
    let n = results.len();
    for j in 0..n
        invariant
            n == results@.len(),
            forall|t: int| 0 <= t < j ==> results@[t] is Ok,
    {
        if results[j].is_err() {
            proof {
                lemma_first_err_skip(results@, j as int);
            }
            return Some(j);
        }
    }
    proof {
        lemma_first_err_skip(results@, n as int);
    }
    None
}

/// The forecasts of a fully successful fan-out, in provider order.
fn collect_forecasts(results: &Vec<Result<Forecast, ProviderError>>) -> (r: Vec<Forecast>)
    requires
        all_ok(results@),
    ensures
        r@ =~= ok_forecasts(results@),
{
    let n = results.len();
    let mut oks: Vec<Forecast> = Vec::new();
    for j in 0..n
        invariant
            n == results@.len(),
            all_ok(results@),
            oks@ =~= ok_forecasts(results@).take(j as int),
    {
        match &results[j] {
            Result::Ok(f) => {
                oks.push(*f);
                proof {
                    assert(oks@ =~= ok_forecasts(results@).take(j + 1));
                }
            },
            Result::Err(_) => {
                proof {
                    assert(false);
                }
            },
        }
    }
    proof {
        assert(ok_forecasts(results@).take(n as int) =~= ok_forecasts(results@));
    }
    oks
}

} // verus!
