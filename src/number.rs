use vstd::arithmetic::power2::{
    lemma2_to64, lemma2_to64_rest, lemma_pow2_adds, lemma_pow2_pos, lemma_pow2_strictly_increases,
    lemma_pow2_unfold, pow2,
};
use vstd::prelude::*;

use crate::value::Number;

verus! {

/// The position of the highest set bit of `n`: the `e` with
/// `2^e <= n < 2^(e+1)`, for `n >= 1`.
pub open spec fn exponent_of(n: nat) -> nat
    decreases n,
{
    if n < 2 {
        0
    } else {
        1 + exponent_of(n / 2)
    }
}

/// The 53-bit significand of the double nearest to `n >= 1`: `n` scaled to
/// `[2^52, 2^53)` when that is exact, otherwise rounded to nearest with ties
/// to even (which can reach `2^53`).
pub open spec fn significand_of(n: nat) -> nat {
    let e = exponent_of(n);
    if e <= 52 {
        n * pow2((52 - e) as nat)
    } else {
        let k = (e - 52) as nat;
        let q = n / pow2(k);
        let rem = n % pow2(k);
        let half = pow2((k - 1) as nat);
        if rem > half || (rem == half && q % 2 == 1) {
            q + 1
        } else {
            q
        }
    }
}

/// The IEEE-754 bits of the double nearest to the count `n`: zero for zero,
/// else the biased exponent `1023 + e` above the 52 fraction bits of the
/// significand. A significand rounded up to `2^53` carries into the exponent.
pub open spec fn count_bits(n: nat) -> nat {
    if n == 0 {
        0
    } else {
        ((1023 + exponent_of(n)) * pow2(52) + significand_of(n) - pow2(52)) as nat
    }
}

/// The number nearest to the count `n`.
pub open spec fn count_number(n: nat) -> Number {
    Number { bits: count_bits(n) as u64 }
}

proof fn lemma_exponent_of(n: nat, e: nat)
    requires
        pow2(e) <= n < pow2(e + 1),
    ensures
        exponent_of(n) == e,
    decreases e,
{
    lemma_pow2_unfold(e + 1);
    if e == 0 {
        lemma2_to64();
    } else {
        lemma_pow2_unfold(e);
        lemma_exponent_of(n / 2, (e - 1) as nat);
    }
}

proof fn lemma_exponent_bounds(n: nat)
    requires
        n >= 1,
    ensures
        pow2(exponent_of(n)) <= n < pow2(exponent_of(n) + 1),
    decreases n,
{
    lemma_pow2_unfold(exponent_of(n) + 1);
    if n < 2 {
        lemma2_to64();
    } else {
        lemma_exponent_bounds(n / 2);
        lemma_pow2_unfold(exponent_of(n));
    }
}

/// A count below `2^53` is held exactly: with `e` the exponent of `n`, the
/// value of the double, its significand times `2^(e - 52)`, is `n`.
pub proof fn lemma_small_counts_exact(n: nat)
    requires
        1 <= n < pow2(53),
    ensures
        exponent_of(n) <= 52,
        significand_of(n) * pow2(exponent_of(n)) == n * pow2(52),
{
    let e = exponent_of(n);
    lemma_exponent_bounds(n);
    if e > 52 {
        if e > 53 {
            lemma_pow2_strictly_increases(53, e);
        }
    }
    lemma_pow2_adds((52 - e) as nat, e);
    assert(significand_of(n) * pow2(e) == n * (pow2((52 - e) as nat) * pow2(e))) by (nonlinear_arith)
        requires
            significand_of(n) == n * pow2((52 - e) as nat),
    ;
}

/// A count of `2^53` or more is rounded to the nearest double: with `e` the
/// exponent of `n` and `k = e - 52`, the value of the double, its significand
/// times `2^k`, is within `2^(k - 1)` (half a unit in the last place) of `n`.
pub proof fn lemma_large_counts_nearest(n: nat)
    requires
        n >= pow2(53),
    ensures
        exponent_of(n) > 52,
        ({
            let k = (exponent_of(n) - 52) as nat;
            &&& significand_of(n) * pow2(k) <= n + pow2((k - 1) as nat)
            &&& n <= significand_of(n) * pow2(k) + pow2((k - 1) as nat)
        }),
{
    let e = exponent_of(n);
    lemma_pow2_pos(53);
    lemma_exponent_bounds(n);
    if e <= 52 {
        if e < 52 {
            lemma_pow2_strictly_increases(e + 1, 53);
        }
    }
    let k = (e - 52) as nat;
    let d = pow2(k);
    let half = pow2((k - 1) as nat);
    lemma_pow2_pos(k);
    lemma_pow2_unfold(k);
    let q = n / d;
    let rem = n % d;
    assert(n == q * d + rem && 0 <= rem < d) by (nonlinear_arith)
        requires
            d > 0,
            q == n / d,
            rem == n % d,
    ;
    if rem > half || (rem == half && q % 2 == 1) {
        assert((q + 1) * d == q * d + d) by (nonlinear_arith);
    } else {
    }
}

/// `2^k`.
fn power_of_two(k: u64) -> (r: u64)
    requires
        k < 64,
    ensures
        r == pow2(k as nat),
{
    let mut r: u64 = 1;
    let mut i: u64 = 0;
    proof {
        lemma2_to64();
        lemma2_to64_rest();
    }
    while i < k
        invariant
            i <= k < 64,
            r == pow2(i as nat),
            pow2(63) == 0x8000_0000_0000_0000,
        decreases k - i,
    {
        proof {
            lemma_pow2_unfold((i + 1) as nat);
            if i < 63 {
                lemma_pow2_strictly_increases(i as nat, 63);
            }
        }
        r = r * 2;
        i = i + 1;
    }
    r
}

impl Number {
    /// The number whose IEEE-754 bits are `bits`.
    pub fn from_bits(bits: u64) -> (r: Number)
        ensures
            r.bits == bits,
    {
        Number { bits }
    }

    /// The IEEE-754 bits of this number.
    pub fn to_bits(&self) -> (r: u64)
        ensures
            r == self.bits,
    {
        self.bits
    }

    /// The double nearest to the count `n`.
    pub fn from_count(n: usize) -> (r: Number)
        ensures
            r == count_number(n as nat),
    {
        let n = n as u64;
        if n == 0 {
            return Number { bits: 0 };
        }
        proof {
            lemma2_to64();
            lemma2_to64_rest();
        }
        let mut e: u64 = 0;
        let mut p: u64 = 1;
        while p <= n / 2
            invariant
                1 <= p <= n,
                p == pow2(e as nat),
                e < 64,
                pow2(63) == 0x8000_0000_0000_0000,
            decreases n - p,
        {
            proof {
                lemma_pow2_unfold((e + 1) as nat);
            }
            p = p * 2;
            e = e + 1;
        }
        proof {
            lemma_pow2_unfold((e + 1) as nat);
            lemma_exponent_of(n as nat, e as nat);
        }
        let m: u64;
        if e <= 52 {
            let scale = power_of_two(52 - e);
            proof {
                lemma_pow2_adds((e + 1) as nat, (52 - e) as nat);
                lemma_pow2_pos((52 - e) as nat);
                assert(n * scale < pow2((e + 1) as nat) * scale) by (nonlinear_arith)
                    requires
                        n < pow2((e + 1) as nat),
                        scale > 0,
                ;
                assert(n * scale >= pow2(e as nat) * scale) by (nonlinear_arith)
                    requires
                        n >= pow2(e as nat),
                        scale > 0,
                ;
                lemma_pow2_adds(e as nat, (52 - e) as nat);
            }
            m = n * scale;
        } else {
            let k = e - 52;
            let d = power_of_two(k);
            let q = n / d;
            let rem = n % d;
            proof {
                lemma_pow2_unfold(k as nat);
                lemma_pow2_adds(52, k as nat);
                lemma_pow2_adds(53, k as nat);
                lemma_pow2_pos(k as nat);
                assert(q >= pow2(52)) by (nonlinear_arith)
                    requires
                        n >= pow2(52) * d,
                        q == n / d,
                        d > 0,
                ;
                assert(q < pow2(53)) by (nonlinear_arith)
                    requires
                        n < pow2(53) * d,
                        q == n / d,
                        d > 0,
                ;
            }
            let half = d / 2;
            if rem > half || (rem == half && q % 2 == 1) {
                m = q + 1;
            } else {
                m = q;
            }
        }
        assert(pow2(52) <= m <= pow2(53));
        Number { bits: (1023 + e) * 0x10_0000_0000_0000 + (m - 0x10_0000_0000_0000) }
    }
}

} // verus!
