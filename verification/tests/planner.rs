//! The capacity planner: bounds, minimality, and the pinned golden
//! prime, cross-checked by an independent sieve.

use bibtex_core::planner::compute_hash_prime;

/// Independent primality check by trial division.
fn is_prime_slow(n: usize) -> bool {
    if n < 2 {
        return false;
    }
    let mut d: usize = 2;
    while d * d <= n {
        if n % d == 0 {
            return false;
        }
        d += 1;
    }
    true
}

#[test]
fn prime_bounds_for_many_capacities() {
    for &n in &[5000usize, 5001, 6000, 7919, 10000, 20011, 35307] {
        let want = n / 20 * 17;
        let p = compute_hash_prime(n).expect("a prime must lie in the window");
        assert!(p >= 128, "prime {} below 128 for capacity {}", p, n);
        assert!(p <= n, "prime {} above capacity {}", p, n);
        assert!(p >= want, "prime {} below 17/20 of {}", p, n);
        assert!(is_prime_slow(p), "{} is not prime (capacity {})", p, n);
        // minimality: no smaller number in the window is prime
        for q in want..p {
            assert!(!is_prime_slow(q), "sieve skipped prime {} for capacity {}", q, n);
        }
    }
}

#[test]
fn golden_prime_for_5000() {
    let p = compute_hash_prime(5000).unwrap();
    assert_eq!(p, 4253);
    // recompute independently instead of replaying the constant
    let want = 5000 / 20 * 17;
    let mut q = want;
    while !is_prime_slow(q) {
        q += 1;
    }
    assert_eq!(p, q);
}
