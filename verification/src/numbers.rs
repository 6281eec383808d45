//! Integer arithmetic: a sum, and a test for prime numbers.

use vstd::prelude::*;
use vstd::arithmetic::div_mod::{lemma_fundamental_div_mod, lemma_mod_multiples_basic};

verus! {

/// The sum of two integers, for operands whose sum fits the type.
pub fn add(a: i32, b: i32) -> (sum: i32)
    requires
        i32::MIN <= a + b <= i32::MAX,
    ensures
        sum == a + b,
{
    a + b
}

/// Whether `n` is prime: at least 2 and divisible by no number between 1
/// and itself.
pub open spec fn is_prime_number(n: nat) -> bool {
    n >= 2 && forall|d: nat| 2 <= d < n ==> #[trigger] (n % d) != 0
}

/// What divides a divisor of `n` divides `n`.
pub proof fn lemma_divisor_of_divisor(n: nat, d: nat, a: nat)
    requires
        a > 0,
        d > 0,
        n % d == 0,
        d % a == 0,
    ensures
        n % a == 0,
{
    lemma_fundamental_div_mod(n as int, d as int);
    lemma_fundamental_div_mod(d as int, a as int);
    let k = (n / d) as int;
    let m = (d / a) as int;
    assert(n == (m * k) * a) by (nonlinear_arith)
        requires
            n == d * k,
            d == a * m,
    ;
    lemma_mod_multiples_basic(m * k, a as int);
}

/// A number with a divisor between 1 and itself has one whose square does
/// not exceed it.
pub proof fn lemma_small_divisor(n: nat, d: nat, bound: nat)
    requires
        2 <= d < n,
        n % d == 0,
        bound * bound > n,
        d >= bound,
    ensures
        2 <= n / d < bound,
        n % (n / d) == 0,
{
    lemma_fundamental_div_mod(n as int, d as int);
    let q = (n / d) as int;
    assert(q >= 2 && q < bound) by (nonlinear_arith)
        requires
            n == d * q,
            2 <= d < n,
            d >= bound,
            bound * bound > n,
            q >= 0,
    ;
    assert(n == q * d) by (nonlinear_arith)
        requires
            n == d * q,
    ;
    lemma_mod_multiples_basic(d as int, q);
}

/// Whether `number` is prime.
pub fn is_prime(number: u32) -> (prime: bool)
    ensures
        prime == is_prime_number(number as nat),
{
    if number <= 1 {
        return false;
    }
    if number <= 3 {
        assert(is_prime_number(number as nat)) by {
            assert(3nat % 2 != 0);
        }
        return true;
    }
    if number % 2 == 0 || number % 3 == 0 {
        assert(number as nat % 2 == 0 || number as nat % 3 == 0);
        return false;
    }
    let ghost n = number as nat;
    let mut i: u32 = 5;
    assert forall|d: nat| 2 <= d < 5 implies #[trigger] (n % d) != 0 by {
        if d == 4 && n % 4 == 0 {
            lemma_divisor_of_divisor(n, 4, 2);
        }
    }
    while i <= number / i
        invariant
            n == number,
            5 <= i <= 65541,
            i % 6 == 5,
            n % 2 != 0,
            n % 3 != 0,
            forall|d: nat| 2 <= d < i ==> #[trigger] (n % d) != 0,
        decreases 65541 - i,
    {
        proof {
            lemma_fundamental_div_mod(n as int, i as int);
        }
        assert(i <= 65535 && i + 2 < n) by (nonlinear_arith)
            requires
                n == i * (n / (i as nat)) + n % (i as nat),
                n % (i as nat) >= 0,
                i <= n / (i as nat),
                n <= u32::MAX,
                i >= 5,
        ;
        if number % i == 0 || number % (i + 2) == 0 {
            assert(n % (i as nat) == 0 || n % ((i + 2) as nat) == 0);
            return false;
        }
        assert forall|d: nat| 2 <= d < i + 6 implies #[trigger] (n % d) != 0 by {
            if d >= i && n % d == 0 {
                if d == i + 1 || d == i + 3 || d == i + 5 {
                    lemma_divisor_of_divisor(n, d, 2);
                } else if d == i + 4 {
                    lemma_divisor_of_divisor(n, d, 3);
                }
            }
        }
        i += 6;
    }
    proof {
        lemma_fundamental_div_mod(n as int, i as int);
    }
    assert(i * i > n) by (nonlinear_arith)
        requires
            n == i * (n / (i as nat)) + n % (i as nat),
            n % (i as nat) < i,
            i > n / (i as nat),
            i >= 5,
    ;
    assert forall|d: nat| 2 <= d < n implies #[trigger] (n % d) != 0 by {
        if d >= i && n % d == 0 {
            lemma_small_divisor(n, d, i as nat);
        }
    }
    true
}

} // verus!
