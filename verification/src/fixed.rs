//! Integer square and cube roots, rounded down.

use vstd::prelude::*;

verus! {

/// One in the fixed-point scale that colour quantities use: a value `v`
/// stands for the real number `v / 1_000_000`.
pub const ONE: u32 = 1_000_000;

/// `r` is the square root of `n`, rounded down.
pub open spec fn is_floor_sqrt(n: int, r: int) -> bool {
    0 <= r && r * r <= n < (r + 1) * (r + 1)
}

/// `r` is the cube root of `n`, rounded down.
pub open spec fn is_floor_cbrt(n: int, r: int) -> bool {
    0 <= r && r * r * r <= n < (r + 1) * (r + 1) * (r + 1)
}

/// The square root of `n`, rounded down (for `n >= 0`).
pub open spec fn floor_sqrt(n: int) -> int {
    choose|r: int| is_floor_sqrt(n, r)
}

/// The cube root of `n`, rounded down (for `n >= 0`).
pub open spec fn floor_cbrt(n: int) -> int {
    choose|r: int| is_floor_cbrt(n, r)
}

/// Squares grow with their base.
pub proof fn lemma_square_monotonic(a: int, b: int)
    requires
        0 <= a <= b,
    ensures
        a * a <= b * b,
{
    assert(a * a <= b * b) by (nonlinear_arith)
        requires
            0 <= a <= b,
    ;
}

/// Cubes grow with their base.
pub proof fn lemma_cube_monotonic(a: int, b: int)
    requires
        0 <= a <= b,
    ensures
        a * a * a <= b * b * b,
{
    lemma_square_monotonic(a, b);
    assert(a * a * a <= b * b * b) by (nonlinear_arith)
        requires
            0 <= a <= b,
            0 <= a * a <= b * b,
    ;
}

/// At most one number is the rounded-down square root of `n`, so a number
/// that is one is `floor_sqrt(n)`.
pub proof fn lemma_floor_sqrt_unique(n: int, r: int)
    requires
        is_floor_sqrt(n, r),
    ensures
        floor_sqrt(n) == r,
{
    let s = floor_sqrt(n);
    assert(is_floor_sqrt(n, s));
    if s < r {
        lemma_square_monotonic(s + 1, r);
    } else if r < s {
        lemma_square_monotonic(r + 1, s);
    }
}

/// At most one number is the rounded-down cube root of `n`, so a number
/// that is one is `floor_cbrt(n)`.
pub proof fn lemma_floor_cbrt_unique(n: int, r: int)
    requires
        is_floor_cbrt(n, r),
    ensures
        floor_cbrt(n) == r,
{
    let s = floor_cbrt(n);
    assert(is_floor_cbrt(n, s));
    if s < r {
        lemma_cube_monotonic(s + 1, r);
    } else if r < s {
        lemma_cube_monotonic(r + 1, s);
    }
}

/// Square root of `n`, rounded down.
pub fn integer_sqrt(n: u128) -> (r: u64)
    ensures
        is_floor_sqrt(n as int, r as int),
        r as int == floor_sqrt(n as int),
{
    let mut lo: u128 = 0;
    let mut hi: u128 = 0x1_0000_0000_0000_0000;
    assert(0x1_0000_0000_0000_0000int * 0x1_0000_0000_0000_0000int
        == 0x1_0000_0000_0000_0000_0000_0000_0000_0000int);
    while hi - lo > 1
        invariant
            lo < hi <= 0x1_0000_0000_0000_0000,
            lo as int * lo as int <= n as int,
            (n as int) < hi as int * hi as int,
        decreases hi - lo,
    {
        let mid = lo + (hi - lo) / 2;
        assert(mid as int * mid as int <= 0xffff_ffff_ffff_ffffint * 0xffff_ffff_ffff_ffffint) by {
            lemma_square_monotonic(mid as int, 0xffff_ffff_ffff_ffffint);
        }
        let square = mid * mid;
        if square <= n {
            lo = mid;
        } else {
            hi = mid;
        }
    }
    proof {
        assert(hi == lo + 1);
        lemma_floor_sqrt_unique(n as int, lo as int);
    }
    lo as u64
}

/// Cube root of `n`, rounded down.
pub fn integer_cbrt(n: u128) -> (r: u64)
    ensures
        is_floor_cbrt(n as int, r as int),
        r as int == floor_cbrt(n as int),
        r <= 6_981_463_658_331,
{
    let mut lo: u128 = 0;
    let mut hi: u128 = 6_981_463_658_332;
    assert(6_981_463_658_332int * 6_981_463_658_332int * 6_981_463_658_332int
        > 0xffff_ffff_ffff_ffff_ffff_ffff_ffff_ffffint);
    assert(6_981_463_658_331int * 6_981_463_658_331int * 6_981_463_658_331int
        <= 0xffff_ffff_ffff_ffff_ffff_ffff_ffff_ffffint);
    while hi - lo > 1
        invariant
            lo < hi <= 6_981_463_658_332,
            lo as int * lo as int * lo as int <= n as int,
            (n as int) < hi as int * hi as int * hi as int,
        decreases hi - lo,
    {
        let mid = lo + (hi - lo) / 2;
        assert(mid as int * mid as int <= 6_981_463_658_331int * 6_981_463_658_331int) by {
            lemma_square_monotonic(mid as int, 6_981_463_658_331int);
        }
        assert(mid as int * mid as int * mid as int <= 6_981_463_658_331int
            * 6_981_463_658_331int * 6_981_463_658_331int) by {
            lemma_cube_monotonic(mid as int, 6_981_463_658_331int);
        }
        let cube = mid * mid * mid;
        if cube <= n {
            lo = mid;
        } else {
            hi = mid;
        }
    }
    proof {
        assert(hi == lo + 1);
        lemma_floor_cbrt_unique(n as int, lo as int);
    }
    lo as u64
}

} // verus!
