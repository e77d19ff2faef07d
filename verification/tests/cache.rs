use brumby_soccer::cache::CacheStats;

#[test]
fn add_bool() {
    assert_eq!(CacheStats { hits: 1, misses: 0 }, CacheStats::default() + true);
    assert_eq!(CacheStats { hits: 0, misses: 1 }, CacheStats::default() + false);
}

#[test]
fn add_assign_bool() {
    let mut cs = CacheStats { hits: 1, misses: 0 };
    cs += false;
    assert_eq!(CacheStats { hits: 1, misses: 1 }, cs);
    cs += true;
    assert_eq!(CacheStats { hits: 2, misses: 1 }, cs);
}

#[test]
fn add_self() {
    let cs = CacheStats { hits: 4, misses: 5 };
    assert_eq!(CacheStats { hits: 7, misses: 6 }, cs + CacheStats { hits: 3, misses: 1 });
}

#[test]
fn add_assign_self() {
    let mut cs = CacheStats { hits: 4, misses: 5 };
    cs += CacheStats { hits: 3, misses: 1 };
    assert_eq!(CacheStats { hits: 7, misses: 6 }, cs);
}

#[test]
fn cache_stats_combine_commutes() {
    let a = CacheStats { hits: 2, misses: 9 };
    let b = CacheStats { hits: 5, misses: 1 };
    assert_eq!(a + b, b + a);
    assert_eq!(a + true, a + CacheStats { hits: 1, misses: 0 });
}
