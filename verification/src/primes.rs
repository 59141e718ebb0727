//! Divisibility and primality, and a trial-division search for the
//! largest prime factor of a number.

use vstd::prelude::*;
use vstd::arithmetic::div_mod::lemma_fundamental_div_mod;
use vstd::arithmetic::div_mod::lemma_fundamental_div_mod_converse_mod;
use vstd::arithmetic::div_mod::lemma_mod_bound;

verus! {

/// `d` divides `n`: some integer multiple of `d` is `n`.
pub open spec fn divides(d: int, n: int) -> bool {
    exists|k: int| n == #[trigger] (k * d)
}

/// `p` is prime: at least 2, and divided by nothing strictly between 1
/// and `p`.
pub open spec fn is_prime(p: int) -> bool {
    2 <= p && forall|d: int| 2 <= d < p ==> !divides(d, p)
}

/// For a positive `d`, a zero remainder is the same thing as divisibility.
pub proof fn lemma_mod_zero_divides(d: int, n: int)
    requires
        1 <= d,
        0 <= n,
    ensures
        (n % d == 0) <==> divides(d, n),
{
    if n % d == 0 {
        lemma_fundamental_div_mod(n, d);
        assert(n == (n / d) * d);
    }
    if divides(d, n) {
        let k = choose|k: int| n == #[trigger] (k * d);
        lemma_fundamental_div_mod_converse_mod(n, d, k, 0);
    }
}

/// Divisibility is transitive.
proof fn lemma_divides_transitive(a: int, b: int, c: int)
    requires
        divides(a, b),
        divides(b, c),
    ensures
        divides(a, c),
{
    let k1 = choose|k: int| b == #[trigger] (k * a);
    let k2 = choose|k: int| c == #[trigger] (k * b);
    assert(c == (k2 * k1) * a) by (nonlinear_arith)
        requires
            b == k1 * a,
            c == k2 * b,
    ;
}

/// A positive divisor of a positive number is no bigger than it.
proof fn lemma_divisor_le(d: int, n: int)
    requires
        1 <= d,
        1 <= n,
        divides(d, n),
    ensures
        d <= n,
{
    let k = choose|k: int| n == #[trigger] (k * d);
    assert(k >= 1 && d <= n) by (nonlinear_arith)
        requires
            n == k * d,
            d >= 1,
            n >= 1,
    ;
}

/// A prime dividing a prime is that prime.
proof fn lemma_prime_divides_prime(p: int, q: int)
    requires
        is_prime(p),
        is_prime(q),
        divides(p, q),
    ensures
        p == q,
{
    lemma_divisor_le(p, q);
}

/// Euclid's lemma for a residue below the prime: a prime dividing `a * b`
/// with `a` strictly between 0 and the prime must divide `b`.
proof fn lemma_euclid_small(p: int, a: int, b: int)
    requires
        is_prime(p),
        1 <= a < p,
        0 <= b,
        divides(p, a * b),
    ensures
        divides(p, b),
    decreases a,
{
    if a == 1 {
        assert(a * b == b);
    } else {
        let q = p / a;
        let r = p % a;
        lemma_fundamental_div_mod(p, a);
        lemma_mod_bound(p, a);
        if r == 0 {
            assert(p == q * a);
            assert(divides(a, p));
            assert(false);
        }
        let k = choose|k: int| a * b == #[trigger] (k * p);
        assert(r * b == (b - q * k) * p) by (nonlinear_arith)
            requires
                p == a * q + r,
                a * b == k * p,
        ;
        assert(divides(p, r * b));
        lemma_euclid_small(p, r, b);
    }
}

/// Euclid's lemma: a prime dividing a product of two non-negative numbers
/// divides one of them.
pub proof fn lemma_euclid(p: int, a: int, b: int)
    requires
        is_prime(p),
        0 <= a,
        0 <= b,
        divides(p, a * b),
    ensures
        divides(p, a) || divides(p, b),
{
    if !divides(p, a) {
        let q = a / p;
        let r = a % p;
        lemma_fundamental_div_mod(a, p);
        lemma_mod_bound(a, p);
        if r == 0 {
            assert(a == q * p);
            assert(divides(p, a));
            assert(false);
        }
        let k = choose|k: int| a * b == #[trigger] (k * p);
        assert(r * b == (k - q * b) * p) by (nonlinear_arith)
            requires
                a == p * q + r,
                a * b == k * p,
        ;
        assert(divides(p, r * b));
        lemma_euclid_small(p, r, b);
    }
}

/// A number at least 2 with no divisor strictly below `i`, where `i`
/// squared already exceeds it, is prime: a proper factorization would have
/// one factor below `i`.
proof fn lemma_no_small_divisor_prime(m: int, i: int)
    requires
        2 <= m,
        2 <= i,
        m < i * i,
        forall|d: int| 2 <= d < i ==> !divides(d, m),
    ensures
        is_prime(m),
{
    assert forall|d: int| 2 <= d < m implies !divides(d, m) by {
        if divides(d, m) {
            let k = choose|k: int| m == #[trigger] (k * d);
            assert(k >= 2) by (nonlinear_arith)
                requires
                    m == k * d,
                    2 <= d < m,
            ;
            assert(m == d * k);
            assert(divides(k, m));
            if d >= i {
                assert(k < i) by (nonlinear_arith)
                    requires
                        m == k * d,
                        d >= i,
                        2 <= i,
                        k >= 2,
                        m < i * i,
                ;
            }
        }
    }
}

/// The largest prime factor of `n`, found by trial division: divide out
/// every factor from 2 upward until the remaining cofactor has no divisor
/// up to its square root, which leaves exactly the largest prime factor.
pub fn largest_prime_factor(n: u64) -> (r: u64)
    requires
        2 <= n,
    ensures
        is_prime(r as int),
        divides(r as int, n as int),
        forall|p: int| is_prime(p) && divides(p, n as int) ==> p <= r,
{
    let mut m = n;
    let mut i: u64 = 2;
    proof {
        assert(n as int == 1 * (n as int));
        assert(divides(n as int, n as int));
    }
    while i <= m / i
        invariant
            2 <= m <= n,
            2 <= i <= m,
            divides(m as int, n as int),
            forall|d: int| 2 <= d < i ==> !divides(d, m as int),
            forall|p: int|
                is_prime(p) && divides(p, n as int) ==> divides(p, m as int) || p <= i,
        decreases m - i,
    {
        if m % i == 0 {
            let ghost mi = m as int;
            let ghost ii = i as int;
            let ghost ni = n as int;
            let ghost q = mi / ii;
            proof {
                lemma_fundamental_div_mod(mi, ii);
                assert(mi == ii * q);
                assert(q >= ii);
                assert(q < mi) by (nonlinear_arith)
                    requires
                        mi == ii * q,
                        ii >= 2,
                        q >= 2,
                ;
                assert(mi == q * ii);
                assert(divides(q, mi));
                lemma_divides_transitive(q, mi, ni);
                assert forall|d: int| 2 <= d < ii implies !divides(d, q) by {
                    if divides(d, q) {
                        lemma_divides_transitive(d, q, mi);
                    }
                }
                assert forall|p: int|
                    is_prime(p) && divides(p, ni) implies divides(p, q) || p <= ii by {
                    if is_prime(p) && divides(p, ni) && p > ii {
                        assert(divides(p, mi));
                        assert(divides(p, ii * q));
                        lemma_euclid(p, ii, q);
                        if divides(p, ii) {
                            lemma_divisor_le(p, ii);
                            assert(false);
                        }
                    }
                }
            }
            m = m / i;
        } else {
            let ghost mi = m as int;
            let ghost ii = i as int;
            proof {
                lemma_mod_zero_divides(ii, mi);
                assert(!divides(ii, mi));
                assert forall|d: int| 2 <= d < ii + 1 implies !divides(d, mi) by {
                    if d >= ii {
                        assert(d == ii);
                    }
                }
                lemma_fundamental_div_mod(mi, ii);
                lemma_mod_bound(mi, ii);
                assert(ii + 1 <= mi) by (nonlinear_arith)
                    requires
                        mi == ii * (mi / ii) + mi % ii,
                        mi % ii >= 0,
                        mi / ii >= ii,
                        ii >= 2,
                ;
            }
            i = i + 1;
        }
    }
    proof {
        let mi = m as int;
        let ii = i as int;
        let ni = n as int;
        lemma_fundamental_div_mod(mi, ii);
        lemma_mod_bound(mi, ii);
        assert(mi < ii * ii) by (nonlinear_arith)
            requires
                mi == ii * (mi / ii) + mi % ii,
                mi % ii < ii,
                mi / ii <= ii - 1,
                ii >= 2,
        ;
        lemma_no_small_divisor_prime(mi, ii);
        assert forall|p: int| is_prime(p) && divides(p, ni) implies p <= mi by {
            if is_prime(p) && divides(p, ni) {
                if divides(p, mi) {
                    lemma_prime_divides_prime(p, mi);
                }
            }
        }
    }
    m
}

} // verus!
