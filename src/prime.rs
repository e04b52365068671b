//! Primality by trial division and the search for the next prime.
use vstd::prelude::*;

verus! {

/// `n` is prime: greater than one and divisible by no integer strictly between one and itself.
pub open spec fn is_prime_spec(n: int) -> bool {
    &&& n > 1
    &&& forall|d: int| 1 < d < n ==> #[trigger] (n % d) != 0
}

/// `p` is the smallest prime strictly greater than `n`.
pub open spec fn is_next_prime(n: int, p: int) -> bool {
    &&& n < p
    &&& is_prime_spec(p)
    &&& forall|k: int| n < k < p ==> !#[trigger] is_prime_spec(k)
}

/// A divisor of a multiple of `k` is no divisor of `n` when `k` is none.
proof fn lemma_divisor_of_multiple(n: int, d: int, k: int)
    requires
        n > 0,
        d > 0,
        k > 0,
        n % d == 0,
        d % k == 0,
    ensures
        n % k == 0,
{
    assert(n % k == 0) by (nonlinear_arith)
        requires
            n > 0,
            d > 0,
            k > 0,
            n % d == 0,
            d % k == 0,
    {
        let q = n / d;
        let r = d / k;
        assert(n == d * q);
        assert(d == k * r);
        assert(n == k * (r * q));
    }
}

/// A divisor `d` of `n` with `i <= d < n` and `n < i * i` has a cofactor in `[2, i)`.
proof fn lemma_small_cofactor(n: int, d: int, i: int)
    requires
        i > 0,
        i <= d < n,
        n % d == 0,
        n < i * i,
    ensures
        1 < n / d < i,
        n % (n / d) == 0,
{
    assert(1 < n / d < i && n % (n / d) == 0) by (nonlinear_arith)
        requires
            i > 0,
            i <= d < n,
            n % d == 0,
            n < i * i,
    {
        let e = n / d;
        assert(n == d * e);
        assert(e >= 2);
        if e >= i {
            assert(d * e >= i * i);
        }
        assert(n == e * d);
        assert(n % e == 0);
    }
}

/// Tests `n` for primality by trial division, skipping multiples of two and three.
pub fn is_prime(n: u64) -> (r: bool)
    ensures
        r == is_prime_spec(n as int),
{
    if n <= 1 {
        return false;
    }
    if n <= 3 {
        assert(forall|d: int| 1 < d < n ==> #[trigger] (n as int % d) != 0) by {
            if n == 3 {
                assert(n as int % 2 != 0);
            }
        }
        return true;
    }
    if n % 2 == 0 || n % 3 == 0 {
        assert(!is_prime_spec(n as int)) by {
            if n % 2 == 0 {
                assert(n as int % 2 == 0);
            } else {
                assert(n as int % 3 == 0);
            }
        }
        return false;
    }
    proof {
        assert forall|d: int| 1 < d < 5 implies #[trigger] (n as int % d) != 0 by {
            if d == 4 && n as int % d == 0 {
                lemma_divisor_of_multiple(n as int, d, 2);
            }
        }
    }
    let mut i: u64 = 5;
    while (i as u128) * (i as u128) <= n as u128
        invariant
            5 <= i,
            i % 6 == 5,
            n >= 5,
            n % 2 != 0,
            n % 3 != 0,
            (i as int) * (i as int) <= n + 12 * (i as int) + 36,
            forall|d: int| 1 < d < i ==> #[trigger] (n as int % d) != 0,
        decreases n + 6 - i,
    {
        assert(i < 0x1_0000_0000) by (nonlinear_arith)
            requires
                (i as int) * (i as int) <= n as int,
                n < 0x1_0000_0000_0000_0000,
                i >= 5,
        ;
        assert(i + 2 < n) by (nonlinear_arith)
            requires
                (i as int) * (i as int) <= n as int,
                i >= 5,
        ;
        if n % i == 0 || n % (i + 2) == 0 {
            assert(!is_prime_spec(n as int)) by {
                if n % i == 0 {
                    assert(n as int % i as int == 0);
                } else {
                    assert(n as int % (i + 2) as int == 0);
                }
            }
            return false;
        }
        proof {
            assert forall|d: int| 1 < d < i + 6 implies #[trigger] (n as int % d) != 0 by {
                if d >= i && n as int % d == 0 {
                    if d % 6 == 0 || d % 6 == 2 || d % 6 == 4 {
                        lemma_divisor_of_multiple(n as int, d, 2);
                    } else if d % 6 == 3 {
                        lemma_divisor_of_multiple(n as int, d, 3);
                    } else {
                        assert(d == i || d == i + 2);
                    }
                }
            }
            assert((i as int + 6) * (i as int + 6) <= n + 12 * (i as int + 6) + 36) by (nonlinear_arith)
                requires
                    (i as int) * (i as int) <= n as int,
            ;
        }
        i = i + 6;
    }
    proof {
        assert forall|d: int| 1 < d < n implies #[trigger] (n as int % d) != 0 by {
            if d >= i && n as int % d == 0 {
                lemma_small_cofactor(n as int, d, i as int);
                let e = n as int / d;
                assert(n as int % e != 0);
            }
        }
    }
    true
}

/// The smallest prime strictly greater than `n`, or `None` when no `u64` is such a prime.
pub fn next_prime(n: u64) -> (r: Option<u64>)
    ensures
        match r {
            Some(p) => is_next_prime(n as int, p as int),
            None => forall|k: int| n < k <= u64::MAX ==> !#[trigger] is_prime_spec(k),
        },
{
    if n == u64::MAX {
        return None;
    }
    let mut num: u64 = n + 1;
    loop
        invariant
            n < num,
            forall|k: int| n < k < num ==> !#[trigger] is_prime_spec(k),
        decreases u64::MAX - num,
    {
        if is_prime(num) {
            return Some(num);
        }
        if num == u64::MAX {
            return None;
        }
        num = num + 1;
    }
}

} // verus!
