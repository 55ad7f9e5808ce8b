//! The forecast value: exactly five daily temperatures.
//!
//! Temperatures are fixed-point integers in an application-chosen unit
//! (for instance milli-degrees Celsius); the library never interprets the
//! unit, it only sums and averages.

use vstd::prelude::*;
use vstd::arithmetic::div_mod::{lemma_div_is_ordered, lemma_div_multiples_vanish};

verus! {

/// Number of days covered by one forecast: today plus four days ahead.
pub const FORECAST_DAYS: usize = 5;

/// A full forecast: one temperature per day, index 0 being today.
///
/// There are no partial forecasts: the array always holds exactly
/// `FORECAST_DAYS` entries.
#[derive(Clone, Copy, PartialEq, Eq, Debug)]
pub struct Forecast {
    pub temps: [i64; 5],
}

impl Forecast {
    /// The forecast whose five temperatures are all `t`.
    pub fn uniform(t: i64) -> (r: Forecast)
        ensures
            r.temps@ =~= Seq::new(5, |i: int| t),
    {
        Forecast { temps: [t, t, t, t, t] }
    }

    /// The temperature for day `day` (0 = today).
    pub fn day(&self, day: usize) -> (r: i64)
        requires
            day < 5,
        ensures
            r == self.temps@[day as int],
    {
        self.temps[day]
    }
}

/// Sum over all forecasts of the temperature for day `d`.
pub open spec fn day_sum(fs: Seq<Forecast>, d: int) -> int
    decreases fs.len(),
{
    if fs.len() == 0 {
        0
    } else {
        day_sum(fs.drop_last(), d) + fs.last().temps@[d]
    }
}

/// Integer division with the quotient rounded toward zero, as the machine
/// division of the temperature sums rounds.
pub open spec fn div_toward_zero(s: int, n: int) -> int {
    if s >= 0 {
        s / n
    } else {
        -((-s) / n)
    }
}

/// The arithmetic mean over all forecasts of the temperature for day `d`,
/// the division by the forecast count rounding toward zero.
pub open spec fn day_mean(fs: Seq<Forecast>, d: int) -> int {
    div_toward_zero(day_sum(fs, d), fs.len() as int)
}

/// The sum of `n` temperatures lies between `n` times the extreme values.
proof fn lemma_day_sum_bounds(fs: Seq<Forecast>, d: int)
    ensures
        -(fs.len() as int) * 0x8000_0000_0000_0000 <= day_sum(fs, d),
        day_sum(fs, d) <= (fs.len() as int) * 0x7fff_ffff_ffff_ffff,
    decreases fs.len(),
{
    if fs.len() > 0 {
        lemma_day_sum_bounds(fs.drop_last(), d);
    }
}

/// The summed temperature for day `d` across all of `fs`.
fn day_total(fs: &Vec<Forecast>, d: usize) -> (r: i128)
    requires
        d < 5,
    ensures
        r == day_sum(fs@, d as int),
{
    let n = fs.len();
    let mut total: i128 = 0;
    for p in 0..n
        invariant
            n == fs@.len(),
            d < 5,
            total == day_sum(fs@.take(p as int), d as int),
            -(p as int) * 0x8000_0000_0000_0000 <= total <= (p as int) * 0x7fff_ffff_ffff_ffff,
    {
        proof {
            assert(fs@.take(p + 1).drop_last() =~= fs@.take(p as int));
            assert(fs@.take(p + 1).last() == fs@[p as int]);
        }
        total = total + (fs[p].temps[d] as i128);
    }
    proof {
        assert(fs@.take(n as int) =~= fs@);
    }
    total
}

/// The mean temperature for day `d` across all of `fs`, rounded toward
/// zero. The mean of `i64` temperatures always fits an `i64` again.
fn day_mean_exec(fs: &Vec<Forecast>, d: usize) -> (r: i64)
    requires
        fs@.len() >= 1,
        d < 5,
    ensures
        r == day_mean(fs@, d as int),
{
    let total = day_total(fs, d);
    let count = fs.len() as u128;
    proof {
        lemma_day_sum_bounds(fs@, d as int);
    }
    if total >= 0 {
        let q = (total as u128) / count;
        proof {
            lemma_div_is_ordered(total as int, (count as int) * 0x7fff_ffff_ffff_ffff, count as int);
            lemma_div_multiples_vanish(0x7fff_ffff_ffff_ffff, count as int);
        }
        q as i64
    } else {
        let q = ((-total) as u128) / count;
        proof {
            lemma_div_is_ordered(-total as int, (count as int) * 0x8000_0000_0000_0000, count as int);
            lemma_div_multiples_vanish(0x8000_0000_0000_0000, count as int);
        }
        let neg: i128 = -(q as i128);
        neg as i64
    }
}

/// The element-wise arithmetic mean of one or more forecasts: for every day
/// index, the temperatures of all forecasts for that day are summed exactly
/// and divided by the forecast count, rounding toward zero.
pub fn average(forecasts: &Vec<Forecast>) -> (r: Forecast)
    requires
        forecasts@.len() >= 1,
    ensures
        forall|d: int| 0 <= d < 5 ==> r.temps@[d] == day_mean(forecasts@, d),
{
    let t0 = day_mean_exec(forecasts, 0);
    let t1 = day_mean_exec(forecasts, 1);
    let t2 = day_mean_exec(forecasts, 2);
    let t3 = day_mean_exec(forecasts, 3);
    let t4 = day_mean_exec(forecasts, 4);
    let r = Forecast { temps: [t0, t1, t2, t3, t4] };
    proof {
        assert(r.temps@ =~= seq![t0, t1, t2, t3, t4]);
    }
    r
}

} // verus!
