use vstd::prelude::*;

verus! {

/// The fixed-point representation of the ratio 1: ratios are counted in millionths.
pub const MILLION: u32 = 1_000_000;

/// `num / den` in millionths, rounded down and capped at one; zero when `den` is zero.
pub open spec fn ratio_millionths_spec(num: int, den: int) -> int {
    if den <= 0 {
        0
    } else if num >= den {
        MILLION as int
    } else if num <= 0 {
        0
    } else {
        (num * MILLION) / den
    }
}

/// A ratio in millionths never exceeds one.
pub proof fn lemma_ratio_bounded(num: int, den: int)
    ensures
        0 <= ratio_millionths_spec(num, den) <= MILLION,
{
    if den > 0 && 0 < num < den {
        assert(0 <= (num * MILLION) / den) by (nonlinear_arith)
            requires
                num > 0,
                den > 0,
        ;
        assert(num * MILLION <= den * MILLION) by (nonlinear_arith)
            requires
                num < den,
        ;
        assert((num * MILLION) / den <= MILLION) by (nonlinear_arith)
            requires
                num * MILLION <= den * MILLION,
                den > 0,
        ;
    }
}

/// A ratio in millionths reaches one exactly when the numerator reaches a nonzero denominator.
pub proof fn lemma_ratio_is_one(num: int, den: int)
    ensures
        ratio_millionths_spec(num, den) == MILLION <==> (den > 0 && num >= den),
{
    if den > 0 && 0 < num < den {
        assert((num * MILLION) / den < MILLION) by (nonlinear_arith)
            requires
                0 < num < den,
                den > 0,
        ;
    }
}

/// A ratio in millionths reaches a threshold counted in millionths exactly
/// when the true ratio does: rounding down never decides such a comparison.
pub proof fn lemma_ratio_at_least(num: int, den: int, threshold: int)
    requires
        0 <= num,
        0 < den,
        0 < threshold <= MILLION,
    ensures
        ratio_millionths_spec(num, den) >= threshold <==> num * MILLION >= threshold * den,
{
    if num >= den {
        assert(num * MILLION >= threshold * den) by (nonlinear_arith)
            requires
                num >= den,
                den > 0,
                0 < threshold <= MILLION,
        ;
    } else if num > 0 {
        let scaled = num * MILLION;
        assert(scaled / den >= threshold <==> scaled >= threshold * den) by (nonlinear_arith)
            requires
                den > 0,
                scaled >= 0,
        ;
    } else {
        assert(threshold * den > 0) by (nonlinear_arith)
            requires
                den > 0,
                threshold > 0,
        ;
    }
}

/// Computes `num / den` in millionths, rounded down and capped at one.
pub fn ratio_millionths(num: u64, den: u128) -> (r: u32)
    ensures
        r == ratio_millionths_spec(num as int, den as int),
        r <= MILLION,
{
    proof {
        lemma_ratio_bounded(num as int, den as int);
    }
    if den == 0 {
        0
    } else if num as u128 >= den {
        MILLION
    } else if num == 0 {
        0
    } else {
        assert(num * MILLION <= u64::MAX * MILLION) by (nonlinear_arith)
            requires
                num <= u64::MAX,
        ;
        let scaled: u128 = (num as u128) * (MILLION as u128);
        let q: u128 = scaled / den;
        q as u32
    }
}

/// `r` is the integer square root of `n`: the largest number whose square does not exceed `n`.
pub open spec fn is_floor_sqrt(n: nat, r: nat) -> bool {
    r * r <= n < (r + 1) * (r + 1)
}

/// The integer square root of `n`.
pub open spec fn floor_sqrt(n: nat) -> nat {
    choose|r: nat| is_floor_sqrt(n, r)
}

/// At most one number is the integer square root of `n`.
pub proof fn lemma_floor_sqrt_unique(n: nat, r1: nat, r2: nat)
    requires
        is_floor_sqrt(n, r1),
        is_floor_sqrt(n, r2),
    ensures
        r1 == r2,
{
    if r1 < r2 {
        assert((r1 + 1) * (r1 + 1) <= r2 * r2) by (nonlinear_arith)
            requires
                r1 + 1 <= r2,
        ;
    } else if r2 < r1 {
        assert((r2 + 1) * (r2 + 1) <= r1 * r1) by (nonlinear_arith)
            requires
                r2 + 1 <= r1,
        ;
    }
}

/// Every number has an integer square root.
pub proof fn lemma_floor_sqrt_exists(n: nat)
    ensures
        is_floor_sqrt(n, floor_sqrt(n)),
    decreases n,
{
    if n == 0 {
        assert(0nat * 0nat <= 0 && 0 < (0nat + 1) * (0nat + 1)) by (nonlinear_arith);
        assert(is_floor_sqrt(0, 0));
    } else {
        lemma_floor_sqrt_exists((n - 1) as nat);
        let r = floor_sqrt((n - 1) as nat);
        if n < (r + 1) * (r + 1) {
            assert(is_floor_sqrt(n, r));
        } else {
            let s = r + 1;
            assert((s + 1) * (s + 1) > s * s) by (nonlinear_arith);
            assert(is_floor_sqrt(n, s));
        }
    }
}

/// Any witness of `is_floor_sqrt` is the integer square root.
pub proof fn lemma_floor_sqrt_is(n: nat, r: nat)
    requires
        is_floor_sqrt(n, r),
    ensures
        floor_sqrt(n) == r,
{
    let chosen = floor_sqrt(n);
    assert(is_floor_sqrt(n, chosen));
    lemma_floor_sqrt_unique(n, r, chosen);
}

/// The integer square root lies below a whole bound exactly when the number
/// lies below the square of the bound: rounding down never decides a comparison.
pub proof fn lemma_floor_sqrt_below(n: nat, r: nat, bound: nat)
    requires
        is_floor_sqrt(n, r),
    ensures
        r < bound <==> n < bound * bound,
{
    if r < bound {
        assert((r + 1) * (r + 1) <= bound * bound) by (nonlinear_arith)
            requires
                r + 1 <= bound,
        ;
    } else {
        assert(bound * bound <= r * r) by (nonlinear_arith)
            requires
                bound <= r,
        ;
    }
}

/// Computes the integer square root by bisection.
pub fn isqrt(n: u128) -> (r: u64)
    ensures
        is_floor_sqrt(n as nat, r as nat),
        r == floor_sqrt(n as nat),
{
    let mut lo: u128 = 0;
    let mut hi: u128 = 0x1_0000_0000_0000_0000;
    assert(0x1_0000_0000_0000_0000int * 0x1_0000_0000_0000_0000int > u128::MAX) by (nonlinear_arith);
    while hi - lo > 1
        invariant
            lo < hi <= 0x1_0000_0000_0000_0000,
            lo * lo <= n,
            n < hi * hi,
        decreases hi - lo,
    {
        let mid: u128 = lo + (hi - lo) / 2;
        assert(mid * mid <= 0xffff_ffff_ffff_ffffint * 0xffff_ffff_ffff_ffffint) by (nonlinear_arith)
            requires
                0 <= mid <= 0xffff_ffff_ffff_ffffint,
        ;
        assert(0xffff_ffff_ffff_ffffint * 0xffff_ffff_ffff_ffffint <= u128::MAX) by (nonlinear_arith);
        if mid * mid <= n {
            lo = mid;
        } else {
            hi = mid;
        }
    }
    proof {
        assert(hi == lo + 1);
        lemma_floor_sqrt_is(n as nat, lo as nat);
    }
    lo as u64
}

} // verus!
