//! Powers of ten.

use vstd::arithmetic::power::{lemma_pow0, lemma_pow1, lemma_pow_adds, lemma_pow_positive, pow};
use vstd::prelude::*;

verus! {

/// `10^n`.
pub open spec fn pow10(n: nat) -> int {
    pow(10, n)
}

/// `10^0` is one and `10^(n + 1)` is ten times `10^n`.
pub proof fn lemma_pow10_unfold(n: nat)
    ensures
        pow10(0) == 1,
        pow10(n + 1) == 10 * pow10(n),
        pow10(n) >= 1,
{
    lemma_pow0(10);
    lemma_pow1(10);
    lemma_pow_adds(10, 1, n);
    lemma_pow_positive(10, n);
}

/// The value of `10^28`, the largest power of ten that a scale can call for.
pub proof fn lemma_pow10_max()
    ensures
        pow10(28) == 10_000_000_000_000_000_000_000_000_000,
{
    reveal_with_fuel(pow, 30);
}

/// Powers of ten grow with the exponent.
pub proof fn lemma_pow10_increases(lo: nat, hi: nat)
    requires
        lo <= hi,
    ensures
        1 <= pow10(lo) <= pow10(hi),
        lo < hi ==> 10 * pow10(lo) <= pow10(hi),
    decreases hi - lo,
{
    lemma_pow10_unfold(lo);
    if lo < hi {
        lemma_pow10_unfold((hi - 1) as nat);
        lemma_pow10_increases(lo, (hi - 1) as nat);
    }
}

/// `10^k` for `k` up to 28.
pub(crate) fn power_of_ten(k: u32) -> (p: i128)
    requires
        k <= 28,
    ensures
        p == pow10(k as nat),
        1 <= p <= 10_000_000_000_000_000_000_000_000_000,
{
    let mut p: i128 = 1;
    let mut i: u32 = 0;
    proof {
        lemma_pow10_unfold(0);
        lemma_pow10_max();
    }
    while i < k
        invariant
            i <= k <= 28,
            p == pow10(i as nat),
            pow10(28) == 10_000_000_000_000_000_000_000_000_000,
        decreases k - i,
    {
        proof {
            lemma_pow10_unfold(i as nat);
            lemma_pow10_increases((i + 1) as nat, 28);
        }
        p = p * 10;
        i = i + 1;
    }
    proof {
        lemma_pow10_increases(k as nat, 28);
    }
    p
}

} // verus!
