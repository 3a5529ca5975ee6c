//! Capacity planning: derive, once and ahead of any lookup, the prime
//! that sizes the hash table. The prime is the smallest one at least
//! 17/20 of the table size, found by testing successive odd candidates
//! against the list of primes discovered so far.

use vstd::prelude::*;

verus! {

use vstd::arithmetic::div_mod::{
    lemma_fundamental_div_mod,
    lemma_mod_multiples_basic,
    lemma_mod_self_0,
    lemma_mod_add_multiples_vanish,
    lemma_div_is_ordered,
};
use vstd::arithmetic::mul::lemma_mul_inequality;

/// `n` is at least 2 and has no divisor strictly between 1 and itself.
pub open spec fn is_prime(n: int) -> bool {
    n >= 2 && forall|d: int| 2 <= d < n ==> #[trigger] (n % d) != 0
}

/// The planner's target: 17/20 of the table size, the quotient
/// truncated before the multiplication.
pub open spec fn prime_target(hash_size: int) -> int {
    hash_size / 20 * 17
}

/// `s` holds the value `q`.
pub open spec fn holds_value(s: Seq<usize>, q: int) -> bool {
    exists|k: int| 0 <= k < s.len() && s[k] as int == q
}

/// Every element of `s` is prime.
spec fn all_prime(s: Seq<usize>) -> bool {
    forall|k: int| 0 <= k < s.len() ==> is_prime(#[trigger] s[k] as int)
}

/// `s` is strictly increasing.
spec fn strictly_increasing(s: Seq<usize>) -> bool {
    forall|k1: int, k2: int| 0 <= k1 < k2 < s.len() ==> s[k1] < s[k2]
}

/// `s` holds every prime up to and including `j`.
spec fn complete_upto(s: Seq<usize>, j: int) -> bool {
    forall|q: int| 2 <= q <= j && is_prime(q) ==> holds_value(s, q)
}

/// Every element of `s` is at most `b`.
spec fn bounded_by(s: Seq<usize>, b: int) -> bool {
    forall|k: int| 0 <= k < s.len() ==> (#[trigger] s[k]) as int <= b
}

/// Every number at least 2 has a prime divisor no larger than itself.
proof fn lemma_prime_factor(n: int) -> (p: int)
    requires
        n >= 2,
    ensures
        is_prime(p),
        2 <= p <= n,
        n % p == 0,
    decreases n,
{
    if is_prime(n) {
        lemma_mod_self_0(n);
        n
    } else {
        let d = choose|d: int| 2 <= d < n && #[trigger] (n % d) == 0;
        let p = lemma_prime_factor(d);
        lemma_fundamental_div_mod(n, d);
        lemma_fundamental_div_mod(d, p);
        assert(n == ((d / p) * (n / d)) * p) by (nonlinear_arith)
            requires
                n == d * (n / d) + 0,
                d == p * (d / p) + 0,
        ;
        lemma_mod_multiples_basic((d / p) * (n / d), p);
        p
    }
}

/// A composite number has a prime divisor whose square does not
/// exceed it.
proof fn lemma_composite_small_prime_factor(n: int) -> (p: int)
    requires
        n >= 2,
        !is_prime(n),
    ensures
        is_prime(p),
        p * p <= n,
        n % p == 0,
{
    let d = choose|d: int| 2 <= d < n && #[trigger] (n % d) == 0;
    lemma_fundamental_div_mod(n, d);
    let e = n / d;
    assert(n == d * e);
    assert(e >= 2) by (nonlinear_arith)
        requires
            n == d * e,
            2 <= d < n,
    ;
    lemma_mod_multiples_basic(d, e);
    let m = if d <= e { d } else { e };
    assert(m * m <= n) by (nonlinear_arith)
        requires
            n == d * e,
            2 <= d,
            2 <= e,
            m == if d <= e { d } else { e },
    ;
    assert(n % m == 0);
    let p = lemma_prime_factor(m);
    lemma_fundamental_div_mod(n, m);
    lemma_fundamental_div_mod(m, p);
    assert(n == ((m / p) * (n / m)) * p) by (nonlinear_arith)
        requires
            n == m * (n / m) + 0,
            m == p * (m / p) + 0,
    ;
    lemma_mod_multiples_basic((m / p) * (n / m), p);
    assert(p * p <= m * m) by (nonlinear_arith)
        requires
            2 <= p <= m,
    ;
    p
}

/// Trial division is sound: a number not divided by any prime whose
/// square is within it is itself prime.
proof fn lemma_trial_division(n: int)
    requires
        n >= 2,
        forall|p: int| is_prime(p) && p * p <= n ==> #[trigger] (n % p) != 0,
    ensures
        is_prime(n),
{
    if !is_prime(n) {
        let p = lemma_composite_small_prime_factor(n);
        assert(n % p != 0);
    }
}

/// Derive the sizing prime for a table of `hash_size` slots: the
/// smallest prime at least 17/20 of `hash_size`. Candidates are
/// scanned only up to `hash_size`; a scan that runs out returns
/// `None` (no prime lay in the window, which the caller treats as a
/// build-breaking condition, not a user-visible one).
pub fn compute_hash_prime(hash_size: usize) -> (r: Option<usize>)
    requires
        5000 <= hash_size,
        hash_size <= 0x1000_0000,
    ensures
        match r {
            Some(p) => {
                &&& is_prime(p as int)
                &&& prime_target(hash_size as int) <= (p as int)
                &&& p <= hash_size
                &&& 128 <= p
                &&& forall|q: int|
                    is_prime(q) && prime_target(hash_size as int) <= q ==> (p as int) <= q
            },
            None => forall|q: int|
                prime_target(hash_size as int) <= q <= hash_size ==> !is_prime(q),
        },
{
    let want = hash_size / 20 * 17;
    proof {
        lemma_div_is_ordered(5000, hash_size as int, 20);
        lemma_mul_inequality(250, hash_size as int / 20, 17);
        assert(want >= 4250);
    }

    let mut primes: Vec<usize> = Vec::new();
    primes.push(2);
    primes.push(3);
    let mut last: usize = 3;
    let mut j: usize = 3;

    proof {
        assert(is_prime(2));
        assert forall|d: int| 2 <= d < 3 implies #[trigger] (3int % d) != 0 by {
            assert(d == 2);
        }
        assert(is_prime(3));
        assert(primes@[0] == 2 && primes@[1] == 3);
        assert forall|q: int| 2 <= q <= 3 && is_prime(q) implies holds_value(primes@, q) by {
            if q == 2 {
                assert(primes@[0] as int == q);
            } else {
                assert(primes@[1] as int == q);
            }
        }
    }

    while last < want
        invariant
            5000 <= hash_size <= 0x1000_0000,
            want == prime_target(hash_size as int),
            want >= 4250,
            primes@.len() >= 2,
            3 <= j <= hash_size,
            j % 2 == 1,
            all_prime(primes@),
            strictly_increasing(primes@),
            bounded_by(primes@, j as int),
            complete_upto(primes@, j as int),
            last == primes@[primes@.len() - 1],
            2 <= last <= j,
            forall|k: int| 0 <= k < primes@.len() - 1 ==> (#[trigger] primes@[k] as int) < want,
        decreases hash_size - j,
    {
        if j + 2 > hash_size {
            proof {
                assert forall|q: int|
                    prime_target(hash_size as int) <= q <= hash_size implies !is_prime(q) by {
                    if is_prime(q) {
                        if q <= j {
                            let k = choose|k: int|
                                0 <= k < primes@.len() && primes@[k] as int == q;
                            if k < primes@.len() - 1 {
                                assert((primes@[k] as int) < want);
                            } else {
                                assert(q == last);
                            }
                        } else {
                            // the only number past `j` in the window is even
                            assert(q == j + 1);
                            lemma_fundamental_div_mod(j as int, 2);
                            lemma_mod_multiples_basic(j as int / 2 + 1, 2);
                            assert((j as int + 1) % 2 == 0);
                            assert(q % 2 == 0);
                        }
                    }
                }
            }
            return None;
        }

        let ghost j_old = j as int;
        j += 2;
        proof {
            lemma_mod_add_multiples_vanish(j_old, 2);
            assert(j % 2 == 1);
            // the even number stepped over is composite
            lemma_fundamental_div_mod(j_old, 2);
            lemma_mod_multiples_basic(j_old / 2 + 1, 2);
            assert((j_old + 1) % 2 == 0);
            assert(!is_prime(j_old + 1));
        }

        let mut i: usize = 0;
        let mut composite = false;
        loop
            invariant
                i <= primes@.len(),
                j <= hash_size <= 0x1000_0000,
                j >= 5,
                all_prime(primes@),
                strictly_increasing(primes@),
                bounded_by(primes@, j as int - 2),
                !composite ==> forall|k: int|
                    0 <= k < i ==> (j as int) % (#[trigger] primes@[k] as int) != 0,
                composite ==> !is_prime(j as int),
            ensures
                composite ==> !is_prime(j as int),
                !composite ==> {
                    &&& i <= primes@.len()
                    &&& forall|k: int|
                        0 <= k < i ==> (j as int) % (#[trigger] primes@[k] as int) != 0
                    &&& (i == primes@.len() || (primes@[i as int] as int) * (
                    primes@[i as int] as int) > j as int)
                },
            decreases primes@.len() - i,
        {
            if i >= primes.len() {
                break;
            }
            let pi = primes[i];
            proof {
                assert(bounded_by(primes@, j as int - 2));
                assert((primes@[i as int]) as int <= j as int - 2);
                assert((pi as int) * (pi as int) <= 0x1000_0000 * 0x1000_0000)
                    by (nonlinear_arith)
                    requires
                        0 <= (pi as int) <= 0x1000_0000,
                ;
            }
            if (pi as u64) * (pi as u64) > (j as u64) {
                break;
            }
            if j % pi == 0 {
                proof {
                    assert((primes@[i as int] as int) >= 2);
                    assert((primes@[i as int] as int) < (j as int));
                    assert(!is_prime(j as int));
                }
                composite = true;
                break;
            }
            i += 1;
        }

        if !composite {
            proof {
                let ghost jn = j as int;
                assert forall|p: int| is_prime(p) && p * p <= jn implies #[trigger] (jn
                    % p) != 0 by {
                    assert(p < jn) by (nonlinear_arith)
                        requires
                            2 <= p,
                            p * p <= jn,
                            jn >= 5,
                    ;
                    // `p` is not the even number just below `j`
                    if p == jn - 1 {
                        assert(p % 2 == 0 && p > 2);
                        assert(!is_prime(p));
                    }
                    assert(p <= jn - 2);
                    assert(holds_value(primes@, p));
                    let k = choose|k: int| 0 <= k < primes@.len() && primes@[k] as int == p;
                    if k < i {
                        assert(jn % (primes@[k] as int) != 0);
                    } else {
                        // the scan stopped early only past the square root
                        assert(i < primes@.len());
                        assert((primes@[i as int] as u64) * (primes@[i as int] as u64) > (
                        j as u64));
                        assert(primes@[i as int] <= primes@[k]);
                        assert((primes@[i as int] as int) * (primes@[i as int] as int) <= (
                        primes@[k] as int) * (primes@[k] as int)) by (nonlinear_arith)
                            requires
                                0 <= primes@[i as int] <= primes@[k],
                        ;
                        assert(p * p <= jn);
                        assert(false);
                    }
                }
                lemma_trial_division(j as int);
            }
            let ghost primes_old = primes@;
            primes.push(j);
            last = j;
            proof {
                assert(primes@[primes@.len() - 1] == j);
                assert forall|q: int| 2 <= q <= j as int && is_prime(q) implies holds_value(
                    primes@,
                    q,
                ) by {
                    if q <= j as int - 2 {
                        assert(holds_value(primes_old, q));
                        let k = choose|k: int|
                            0 <= k < primes_old.len() && primes_old[k] as int == q;
                        assert(primes@[k] as int == q);
                    } else if q == j as int {
                        assert(primes@[primes@.len() - 1] as int == q);
                    } else {
                        assert(q == j as int - 1);
                        assert(!is_prime(q));
                    }
                }
            }
        } else {
            proof {
                assert forall|q: int| 2 <= q <= j as int && is_prime(q) implies holds_value(
                    primes@,
                    q,
                ) by {
                    if q <= j as int - 2 {
                    } else if q == j as int - 1 {
                        assert(!is_prime(q));
                    } else {
                        assert(q == j as int);
                        assert(!is_prime(q));
                    }
                }
            }
        }
    }

    proof {
        assert(is_prime(last as int));
        assert((last as int) >= want);
        assert(128 <= last);
        assert forall|q: int| is_prime(q) && prime_target(hash_size as int) <= q implies (last as int) <= q by {
            if q < (last as int) {
                assert(q <= j as int);
                assert(holds_value(primes@, q));
                let k = choose|k: int| 0 <= k < primes@.len() && primes@[k] as int == q;
                if k == primes@.len() - 1 {
                    assert(primes@[k] == last);
                } else {
                    assert((primes@[k] as int) < want);
                }
            }
        }
    }
    Some(last)
}

} // verus!
