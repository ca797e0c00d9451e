//! Small arithmetic helpers shared across the crate: the integer square
//! root used by the Euclidean color distance, and rounded rational
//! division used when resolving output resolutions.
use vstd::prelude::*;

verus! {

/// `r` is the floor of the square root of `n`.
pub open spec fn is_sqrt_floor(n: int, r: int) -> bool {
    0 <= r && r * r <= n && n < (r + 1) * (r + 1)
}

/// The floor of the square root of a non-negative integer.
pub open spec fn sqrt_floor(n: int) -> int {
    choose|r: int| is_sqrt_floor(n, r)
}

/// For every non-negative `n`, `sqrt_floor(n)` really satisfies `is_sqrt_floor`.
pub proof fn lemma_sqrt_floor_exists(n: int)
    requires
        n >= 0,
    ensures
        is_sqrt_floor(n, sqrt_floor(n)),
    decreases n,
{
    if n == 0 {
        assert(is_sqrt_floor(0, 0)) by (nonlinear_arith);
    } else {
        lemma_sqrt_floor_exists(n - 1);
        let r = sqrt_floor(n - 1);
        if (r + 1) * (r + 1) <= n {
            assert(is_sqrt_floor(n, r + 1)) by (nonlinear_arith)
                requires
                    0 <= r,
                    r * r <= n - 1,
                    n - 1 < (r + 1) * (r + 1),
                    (r + 1) * (r + 1) <= n,
            ;
        } else {
            assert(is_sqrt_floor(n, r));
        }
    }
}

/// The floor square root is unique: any witness equals `sqrt_floor(n)`.
pub proof fn lemma_sqrt_floor_unique(n: int, r: int)
    requires
        is_sqrt_floor(n, r),
    ensures
        r == sqrt_floor(n),
{
    let s = sqrt_floor(n);
    assert(is_sqrt_floor(n, s));
    if r < s {
        assert(false) by (nonlinear_arith)
            requires
                0 <= r < s,
                n < (r + 1) * (r + 1),
                s * s <= n,
        ;
    }
    if s < r {
        assert(false) by (nonlinear_arith)
            requires
                0 <= s < r,
                n < (s + 1) * (s + 1),
                r * r <= n,
        ;
    }
}

/// Relies on `num_integer::Roots::sqrt` for `u64`, documented as the
/// truncated principal square root: the `r` with `r*r <= x < (r+1)*(r+1)`.
#[verifier::external_body]
pub(crate) fn u64_sqrt(x: u64) -> (r: u64)
    ensures
        is_sqrt_floor(x as int, r as int),
{
    num_integer::Roots::sqrt(&x)
}

/// Rounds the non-negative ratio `num / den` to the nearest integer,
/// half-way cases away from zero.
pub open spec fn round_ratio(num: int, den: int) -> int {
    (2 * num + den) / (2 * den)
}

} // verus!
