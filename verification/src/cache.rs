use vstd::prelude::*;
use vstd::std_specs::ops::AddSpecImpl;

verus! {

/// The sum `n` of two `usize` values, reduced into the range of `usize`.
pub open spec fn wrapped(n: int) -> usize {
    if n > usize::MAX {
        (n - (usize::MAX + 1)) as usize
    } else {
        n as usize
    }
}

/// Counts of explorations served from the cache and computed afresh.
#[derive(Clone, Copy, Debug, PartialEq, Eq, Structural)]
pub struct CacheStats {
    pub hits: usize,
    pub misses: usize,
}

impl CacheStats {
    /// The stats after one more lookup, a hit or a miss.
    pub open spec fn count(self, cache_hit: bool) -> CacheStats {
        if cache_hit {
            CacheStats { hits: (self.hits + 1) as usize, ..self }
        } else {
            CacheStats { misses: (self.misses + 1) as usize, ..self }
        }
    }

    /// The stats of two caching runs taken together.
    pub open spec fn combined(self, other: CacheStats) -> CacheStats {
        CacheStats {
            hits: (self.hits + other.hits) as usize,
            misses: (self.misses + other.misses) as usize,
        }
    }

    pub open spec fn can_count(self, cache_hit: bool) -> bool {
        if cache_hit {
            self.hits < usize::MAX
        } else {
            self.misses < usize::MAX
        }
    }

    pub open spec fn can_combine(self, other: CacheStats) -> bool {
        self.hits + other.hits <= usize::MAX && self.misses + other.misses <= usize::MAX
    }
}

impl Default for CacheStats {
    fn default() -> (stats: Self)
        ensures
            stats == (CacheStats { hits: 0, misses: 0 }),
    {
        CacheStats { hits: 0, misses: 0 }
    }
}

impl core::ops::Add<bool> for CacheStats {
    type Output = CacheStats;

    fn add(self, cache_hit: bool) -> (stats: CacheStats)
        ensures
            stats == self.count(cache_hit),
    {
        if cache_hit {
            CacheStats { hits: self.hits + 1, ..self }
        } else {
            CacheStats { misses: self.misses + 1, ..self }
        }
    }
}

impl AddSpecImpl<bool> for CacheStats {
    open spec fn obeys_add_spec() -> bool {
        true
    }

    open spec fn add_req(self, cache_hit: bool) -> bool {
        self.can_count(cache_hit)
    }

    open spec fn add_spec(self, cache_hit: bool) -> CacheStats {
        self.count(cache_hit)
    }
}

impl core::ops::Add for CacheStats {
    type Output = Self;

    fn add(self, rhs: Self) -> (stats: Self)
        ensures
            stats == self.combined(rhs),
    {
        CacheStats { hits: self.hits + rhs.hits, misses: self.misses + rhs.misses }
    }
}

impl AddSpecImpl for CacheStats {
    open spec fn obeys_add_spec() -> bool {
        true
    }

    open spec fn add_req(self, rhs: CacheStats) -> bool {
        self.can_combine(rhs)
    }

    open spec fn add_spec(self, rhs: CacheStats) -> CacheStats {
        self.combined(rhs)
    }
}

/// Adding in place cannot demand that the counts stay below `usize::MAX`;
/// a count already there wraps to zero, as an unchecked `+=` does in an
/// optimised build.
impl core::ops::AddAssign<bool> for CacheStats {
    fn add_assign(&mut self, cache_hit: bool)
        ensures
            old(self).can_count(cache_hit) ==> *final(self) == old(self).count(cache_hit),
            final(self).hits == if cache_hit {
                wrapped(old(self).hits + 1)
            } else {
                old(self).hits
            },
            final(self).misses == if cache_hit {
                old(self).misses
            } else {
                wrapped(old(self).misses + 1)
            },
    {
        if cache_hit {
            self.hits = self.hits.wrapping_add(1);
        } else {
            self.misses = self.misses.wrapping_add(1);
        }
    }
}

impl core::ops::AddAssign for CacheStats {
    fn add_assign(&mut self, rhs: Self)
        ensures
            old(self).can_combine(rhs) ==> *final(self) == old(self).combined(rhs),
            final(self).hits == wrapped(old(self).hits + rhs.hits),
            final(self).misses == wrapped(old(self).misses + rhs.misses),
    {
        self.hits = self.hits.wrapping_add(rhs.hits);
        self.misses = self.misses.wrapping_add(rhs.misses);
    }
}

/// Counting lookups one by one agrees with combining their counts, and
/// combining is commutative and associative with the empty stats as unit.
pub proof fn lemma_cache_stats_combine(a: CacheStats, b: CacheStats, c: CacheStats, cache_hit: bool)
    requires
        a.can_combine(b),
        a.combined(b).can_combine(c),
        a.can_count(cache_hit),
    ensures
        a.combined(b) == b.combined(a),
        a.combined(b).combined(c) == a.combined(b.combined(c)),
        a.combined(CacheStats { hits: 0, misses: 0 }) == a,
        a.count(cache_hit) == a.combined(
            if cache_hit {
                CacheStats { hits: 1, misses: 0 }
            } else {
                CacheStats { hits: 0, misses: 1 }
            },
        ),
{
}

} // verus!
