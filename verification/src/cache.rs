//! The position-keyed forecast cache with day-granularity invalidation.
//!
//! Entries live in insertion order and are found by tolerance equality of
//! positions, the first close entry winning. An entry answers a read only
//! on the calendar day it was computed for; on any other day it is passed
//! over (not deleted) and overwritten by the next successful store.

use vstd::prelude::*;
use crate::position::{Pos, pos_close};
use crate::forecast::Forecast;

verus! {

/// A stored forecast tagged with the calendar day it was computed for.
#[derive(Clone, Copy, PartialEq, Eq, Debug)]
pub struct CacheEntry {
    /// Day number of the day the forecast was aggregated.
    pub computed_day: i64,
    /// The aggregated forecast.
    pub forecast: Forecast,
}

/// The in-memory forecast cache: a mapping from positions to entries, keys
/// matched by tolerance, no ordering semantics, no eviction.
#[derive(Debug)]
pub struct Cache {
    entries: Vec<(Pos, CacheEntry)>,
}

/// Index of the first entry at or after `i` whose key is close to `pos`,
/// or -1 when there is none.
pub open spec fn first_match_from(s: Seq<(Pos, CacheEntry)>, pos: Pos, i: int) -> int
    decreases s.len() - i,
{
    if i < 0 || i >= s.len() {
        -1
    } else if pos_close(s[i].0, pos) {
        i
    } else {
        first_match_from(s, pos, i + 1)
    }
}

/// Index of the entry a position reads and writes, or -1 when absent.
pub open spec fn first_match(s: Seq<(Pos, CacheEntry)>, pos: Pos) -> int {
    first_match_from(s, pos, 0)
}

/// What a lookup of `pos` on day `today` returns on cache contents `s`.
pub open spec fn spec_lookup(s: Seq<(Pos, CacheEntry)>, pos: Pos, today: i64) -> Option<Forecast> {
    let i = first_match(s, pos);
    if i >= 0 && s[i].1.computed_day == today {
        Some(s[i].1.forecast)
    } else {
        None
    }
}

/// The cache contents after a store of `entry` under `pos`: the first close
/// entry is replaced (its stored key kept), or a new entry is appended.
pub open spec fn spec_store(
    s: Seq<(Pos, CacheEntry)>,
    pos: Pos,
    entry: CacheEntry,
) -> Seq<(Pos, CacheEntry)> {
    let i = first_match(s, pos);
    if i >= 0 {
        s.update(i, (s[i].0, entry))
    } else {
        s.push((pos, entry))
    }
}

/// Scanning may start past any prefix free of close keys.
proof fn lemma_first_match_skip(s: Seq<(Pos, CacheEntry)>, pos: Pos, j: int)
    requires
        0 <= j <= s.len(),
        forall|t: int| 0 <= t < j ==> !pos_close(s[t].0, pos),
    ensures
        first_match(s, pos) == first_match_from(s, pos, j),
    decreases j,
{
    if j > 0 {
        lemma_first_match_skip(s, pos, j - 1);
    }
}

/// The first match is a close entry, and nothing before it is one.
pub proof fn lemma_first_match_found(s: Seq<(Pos, CacheEntry)>, pos: Pos)
    ensures
        first_match(s, pos) >= 0 ==> {
            let i = first_match(s, pos);
            &&& i < s.len()
            &&& pos_close(s[i].0, pos)
        },
        first_match(s, pos) >= -1,
{
    lemma_first_match_found_from(s, pos, 0);
}

proof fn lemma_first_match_found_from(s: Seq<(Pos, CacheEntry)>, pos: Pos, j: int)
    ensures
        first_match_from(s, pos, j) >= 0 ==> {
            let i = first_match_from(s, pos, j);
            &&& i < s.len()
            &&& pos_close(s[i].0, pos)
        },
        first_match_from(s, pos, j) == -1 || first_match_from(s, pos, j) >= j,
        first_match_from(s, pos, j) >= -1,
    decreases s.len() - j,
{
    if 0 <= j && j < s.len() && !pos_close(s[j].0, pos) {
        lemma_first_match_found_from(s, pos, j + 1);
    }
}

impl Cache {
    /// The stored entries, in insertion order.
    pub closed spec fn view(&self) -> Seq<(Pos, CacheEntry)> {
        self.entries@
    }

    /// A cache with no entries, as the service starts with.
    pub fn new() -> (r: Cache)
        ensures
            r@ =~= Seq::<(Pos, CacheEntry)>::empty(),
    {
        Cache { entries: Vec::new() }
    }

    /// Index of the entry `pos` reads and writes, if any.
    fn find(&self, pos: &Pos) -> (r: Option<usize>)
        ensures
            match r {
                Some(i) => i < self@.len() && first_match(self@, *pos) == i,
                None => first_match(self@, *pos) == -1,
            },
    {
        let n = self.entries.len();
        for j in 0..n
            invariant
                n == self@.len(),
                forall|t: int| 0 <= t < j ==> !pos_close(self@[t].0, *pos),
        {
            if self.entries[j].0.close_to(pos) {
                proof {
                    lemma_first_match_skip(self@, *pos, j as int);
                }
                return Some(j);
            }
        }
        proof {
            lemma_first_match_skip(self@, *pos, n as int);
        }
        None
    }

    /// The cached forecast for `pos`, but only if it was computed `today`:
    /// an entry for another day — earlier or later — is a miss, left in
    /// place to be overwritten by the next successful store.
    pub fn lookup(&self, pos: &Pos, today: i64) -> (r: Option<Forecast>)
        ensures
            r == spec_lookup(self@, *pos, today),
    {
        match self.find(pos) {
            Some(i) => {
                let entry = &self.entries[i].1;
                if entry.computed_day == today {
                    Some(entry.forecast)
                } else {
                    None
                }
            },
            None => None,
        }
    }

    /// Insert or replace the entry for `pos` with `forecast` computed
    /// `today`.
    pub fn store(&mut self, pos: &Pos, today: i64, forecast: Forecast)
        ensures
            final(self)@ =~= spec_store(
                old(self)@,
                *pos,
                CacheEntry { computed_day: today, forecast },
            ),
    {
        let entry = CacheEntry { computed_day: today, forecast };
        match self.find(pos) {
            Some(i) => {
                let key = self.entries[i].0;
                self.entries[i] = (key, entry);
            },
            None => {
                self.entries.push((*pos, entry));
            },
        }
    }
}

/// After a store, a lookup on the same day through any position close to the
/// stored entry's slot returns exactly the stored forecast; in particular a
/// fresh store is always found again through its own position.
pub proof fn lemma_store_then_lookup(
    s: Seq<(Pos, CacheEntry)>,
    pos: Pos,
    today: i64,
    forecast: Forecast,
)
    ensures
        spec_lookup(
            spec_store(s, pos, CacheEntry { computed_day: today, forecast }),
            pos,
            today,
        ) == Some(forecast),
{
    let entry = CacheEntry { computed_day: today, forecast };
    let t = spec_store(s, pos, entry);
    let i = first_match(s, pos);
    lemma_first_match_found(s, pos);
    if i >= 0 {
        assert(t =~= s.update(i, (s[i].0, entry)));
        lemma_first_match_same_keys(s, t, pos);
        assert(t[i].1 == entry);
    } else {
        lemma_first_match_extend(s, pos, entry);
    }
}

/// An entry computed for any day other than `today` — earlier or later —
/// answers no lookup: the read is a miss, and the entry stays in place
/// until a successful store overwrites it.
pub proof fn lemma_other_day_is_miss(s: Seq<(Pos, CacheEntry)>, pos: Pos, today: i64)
    requires
        first_match(s, pos) >= 0 ==> s[first_match(s, pos)].1.computed_day != today,
    ensures
        spec_lookup(s, pos, today) is None,
{
}

/// A position beyond epsilon of every stored key reads nothing, whatever
/// the day: distinct keys stay distinct.
pub proof fn lemma_unrelated_position_misses(s: Seq<(Pos, CacheEntry)>, pos: Pos, today: i64)
    requires
        forall|j: int| 0 <= j < s.len() ==> !pos_close(s[j].0, pos),
    ensures
        spec_lookup(s, pos, today) is None,
{
    lemma_first_match_found(s, pos);
}

/// Tolerance decides cache-key identity: a forecast stored under `p` into
/// an empty cache is found through `q` exactly when `q` is within epsilon
/// of `p` in both coordinates; beyond epsilon the keys are distinct.
pub proof fn lemma_key_tolerance(p: Pos, q: Pos, today: i64, forecast: Forecast)
    ensures
        spec_lookup(
            spec_store(Seq::<(Pos, CacheEntry)>::empty(), p, CacheEntry { computed_day: today, forecast }),
            q,
            today,
        ) == (if pos_close(p, q) {
            Some(forecast)
        } else {
            None
        }),
{
    let entry = CacheEntry { computed_day: today, forecast };
    let s = Seq::<(Pos, CacheEntry)>::empty();
    let t = spec_store(s, p, entry);
    assert(first_match(s, p) == -1);
    assert(t =~= s.push((p, entry)));
    assert(t[0] == (p, entry));
    if pos_close(p, q) {
        assert(first_match(t, q) == 0);
    } else {
        assert(first_match_from(t, q, 1) == -1);
    }
}

/// Two contents with the same keys in the same order are scanned alike.
proof fn lemma_first_match_same_keys(
    s: Seq<(Pos, CacheEntry)>,
    t: Seq<(Pos, CacheEntry)>,
    pos: Pos,
)
    requires
        s.len() == t.len(),
        forall|j: int| 0 <= j < s.len() ==> s[j].0 == t[j].0,
    ensures
        first_match(s, pos) == first_match(t, pos),
{
    lemma_first_match_same_keys_from(s, t, pos, 0);
}

proof fn lemma_first_match_same_keys_from(
    s: Seq<(Pos, CacheEntry)>,
    t: Seq<(Pos, CacheEntry)>,
    pos: Pos,
    j: int,
)
    requires
        s.len() == t.len(),
        forall|j: int| 0 <= j < s.len() ==> s[j].0 == t[j].0,
    ensures
        first_match_from(s, pos, j) == first_match_from(t, pos, j),
    decreases s.len() - j,
{
    if 0 <= j && j < s.len() && !pos_close(s[j].0, pos) {
        lemma_first_match_same_keys_from(s, t, pos, j + 1);
    }
}

/// Appending the missing entry makes it the first match of its position.
proof fn lemma_first_match_extend(s: Seq<(Pos, CacheEntry)>, pos: Pos, entry: CacheEntry)
    requires
        first_match(s, pos) == -1,
    ensures
        first_match(s.push((pos, entry)), pos) == s.len(),
{
    crate::position::lemma_pos_close_reflexive(pos);
    lemma_no_match_then_last(s, s.push((pos, entry)), pos, 0);
}

proof fn lemma_no_match_then_last(
    s: Seq<(Pos, CacheEntry)>,
    t: Seq<(Pos, CacheEntry)>,
    pos: Pos,
    j: int,
)
    requires
        t.len() == s.len() + 1,
        forall|j: int| 0 <= j < s.len() ==> t[j] == s[j],
        pos_close(t[s.len() as int].0, pos),
        first_match_from(s, pos, j) == -1,
        0 <= j <= s.len(),
    ensures
        first_match_from(t, pos, j) == s.len(),
    decreases t.len() - j,
{
    if j < s.len() {
        lemma_no_match_then_last(s, t, pos, j + 1);
    }
}

} // verus!
