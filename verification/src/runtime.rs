//! The arithmetic primitives of the runtime: the saturating clamp the
//! driver applies to every produced pixel, and the integer square root
//! backing `Sqrt` expressions.

use vstd::prelude::*;

verus! {

/// Saturating clamp of a 64-bit stage result into the byte range
/// `0..=255`: negative values map to 0, values of 255 or more map to 255.
pub open spec fn clamp_byte(v: i64) -> u8 {
    if v < 0 {
        0
    } else if v >= 255 {
        255
    } else {
        v as u8
    }
}

/// Narrows a stage result to an output pixel, saturating into `0..=255`.
pub fn clamp_pixel(v: i64) -> (r: u8)
    ensures
        r == clamp_byte(v),
{
    if v < 0 {
        0
    } else if v >= 255 {
        255
    } else {
        v as u8
    }
}

/// Integer square root: the largest `n >= 0` with `n * n <= v`.
/// Arguments below 1 give 0.
pub open spec fn isqrt_spec(v: int) -> int
    decreases v,
{
    if v < 1 {
        0
    } else {
        let p = isqrt_spec(v - 1);
        if (p + 1) * (p + 1) <= v {
            p + 1
        } else {
            p
        }
    }
}

/// `isqrt_spec` restricted to the 64-bit values that flow through a
/// pipeline; the root of a nonnegative `i64` always fits back in `i64`.
pub open spec fn isqrt64(v: i64) -> i64 {
    isqrt_spec(v as int) as i64
}

/// For nonnegative `v`, `isqrt_spec(v)` is the largest root:
/// `isqrt_spec(v)^2 <= v < (isqrt_spec(v) + 1)^2`.
pub proof fn lemma_isqrt_bounds(v: int)
    requires
        0 <= v,
    ensures
        0 <= isqrt_spec(v) <= v,
        isqrt_spec(v) * isqrt_spec(v) <= v,
        v < (isqrt_spec(v) + 1) * (isqrt_spec(v) + 1),
    decreases v,
{
    if v >= 1 {
        lemma_isqrt_bounds(v - 1);
        let p = isqrt_spec(v - 1);
        if (p + 1) * (p + 1) <= v {
            assert(v < (p + 2) * (p + 2)) by (nonlinear_arith)
                requires
                    0 <= p,
                    v - 1 < (p + 1) * (p + 1),
            ;
            assert(p + 1 <= v) by (nonlinear_arith)
                requires
                    0 <= p,
                    (p + 1) * (p + 1) <= v,
            ;
        }
    }
}

/// Any `r` with `r^2 <= v < (r + 1)^2` is the integer square root of `v`.
pub proof fn lemma_isqrt_unique(v: int, r: int)
    requires
        0 <= v,
        0 <= r,
        r * r <= v,
        v < (r + 1) * (r + 1),
    ensures
        r == isqrt_spec(v),
{
    let s = isqrt_spec(v);
    lemma_isqrt_bounds(v);
    if r < s {
        assert((r + 1) * (r + 1) <= s * s) by (nonlinear_arith)
            requires
                0 <= r + 1 <= s,
        ;
    }
    if s < r {
        assert((s + 1) * (s + 1) <= r * r) by (nonlinear_arith)
            requires
                0 <= s + 1 <= r,
        ;
    }
}

/// Executable integer square root: the runtime primitive that `Sqrt`
/// expressions call through. Total: arguments below 1 give 0.
pub fn isqrt(v: i64) -> (r: i64)
    ensures
        r == isqrt64(v),
{
    if v <= 0 {
        return 0;
    }
    let mut n: i64 = 0;
    loop
        invariant
            0 < v,
            0 <= n,
            n * n <= v,
        ensures
            0 <= n && n * n <= v && v < (n + 1) * (n + 1),
        decreases v - n,
    {
        proof {
            assert(n + 1 <= i64::MAX) by (nonlinear_arith)
                requires
                    0 <= n,
                    n * n <= i64::MAX,
            ;
        }
        let nx = n + 1;
        let cont = match nx.checked_mul(nx) {
            Some(sq) => sq <= v,
            None => false,
        };
        if !cont {
            break;
        }
        proof {
            assert(nx <= nx * nx) by (nonlinear_arith)
                requires
                    1 <= nx,
            ;
        }
        n = nx;
    }
    proof {
        lemma_isqrt_unique(v as int, n as int);
    }
    n
}

} // verus!
