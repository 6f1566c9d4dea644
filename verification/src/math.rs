//! Integer arithmetic shared by the geometry: square roots, saturation and
//! division that rounds toward zero.

use vstd::prelude::*;

verus! {

/// The absolute value of an integer.
pub open spec fn magnitude(v: int) -> nat {
    if v < 0 {
        (-v) as nat
    } else {
        v as nat
    }
}

/// Whether `r` is the floor of the square root of `v`.
pub open spec fn is_isqrt(v: nat, r: nat) -> bool {
    r * r <= v < (r + 1) * (r + 1)
}

/// The floor of the square root of `v`.
pub open spec fn spec_isqrt(v: nat) -> nat {
    choose|r: nat| is_isqrt(v, r)
}

/// At most one number is the floor of the square root of `v`.
pub proof fn lemma_isqrt_unique(v: nat, r: nat)
    requires
        is_isqrt(v, r),
    ensures
        spec_isqrt(v) == r,
{
    let s = spec_isqrt(v);
    assert(is_isqrt(v, s));
    assert(s == r) by (nonlinear_arith)
        requires
            s * s <= v,
            v < (s + 1) * (s + 1),
            r * r <= v,
            v < (r + 1) * (r + 1),
    ;
}

/// Every number has a floor of its square root.
pub proof fn lemma_isqrt_exists(v: nat)
    ensures
        is_isqrt(v, spec_isqrt(v)),
    decreases v,
{
    if v == 0 {
        assert(is_isqrt(0, 0)) by (nonlinear_arith);
    } else {
        lemma_isqrt_exists((v - 1) as nat);
        let r = spec_isqrt((v - 1) as nat);
        if (r + 1) * (r + 1) <= v {
            assert(is_isqrt(v, r + 1)) by (nonlinear_arith)
                requires
                    (r + 1) * (r + 1) <= v,
                    v - 1 < (r + 1) * (r + 1),
            ;
        } else {
            assert(is_isqrt(v, r));
        }
    }
}

/// Computes the floor of the square root of `v` by bisection.
pub fn isqrt(v: u64) -> (r: u32)
    ensures
        r == spec_isqrt(v as nat),
        r * r <= v < (r + 1) * (r + 1),
{
    let mut lo: u64 = 0;
    let mut hi: u64 = 0x1_0000_0000;
    assert(v < hi * hi) by (nonlinear_arith)
        requires
            hi == 0x1_0000_0000u64,
            v <= u64::MAX,
    ;
    while hi - lo > 1
        invariant
            lo < hi <= 0x1_0000_0000,
            lo * lo <= v,
            v < hi * hi,
        decreases hi - lo,
    {
        let mid: u64 = lo + (hi - lo) / 2;
        assert(mid * mid <= 0xFFFF_FFFF * 0xFFFF_FFFF) by (nonlinear_arith)
            requires
                mid <= 0xFFFF_FFFF,
        ;
        if mid * mid <= v {
            lo = mid;
        } else {
            hi = mid;
        }
    }
    proof {
        lemma_isqrt_unique(v as nat, lo as nat);
    }
    lo as u32
}

/// The value of the 64-bit signed range that lies nearest to `v`.
pub open spec fn spec_saturate(v: int) -> int {
    if v < i64::MIN {
        i64::MIN as int
    } else if v > i64::MAX {
        i64::MAX as int
    } else {
        v
    }
}

/// Brings a wide intermediate result back into the 64-bit range, keeping
/// the nearest bound where it does not fit.
pub fn saturate(v: i128) -> (r: i64)
    ensures
        r == spec_saturate(v as int),
{
    if v < i64::MIN as i128 {
        i64::MIN
    } else if v > i64::MAX as i128 {
        i64::MAX
    } else {
        v as i64
    }
}

/// The quotient of `a` by `b`, rounded toward zero.
pub open spec fn spec_div_toward_zero(a: int, b: int) -> int
    recommends
        b > 0,
{
    if a < 0 {
        -((-a) / b)
    } else {
        a / b
    }
}

} // verus!
