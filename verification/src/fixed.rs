//! Fixed-point scalars: `i64` values carrying four decimal digits, so that
//! `10_000` stands for `1.0`. Times are plain `u64` milliseconds.

use vstd::prelude::*;

verus! {

/// One whole unit in fixed-point representation.
pub const FP: i64 = 10_000;

/// Magnitude bound on every coordinate the simulation works with
/// (100 000 whole units). Keeping positions inside this box keeps every
/// product in the steering and collision arithmetic inside `i64`.
pub const COORD_LIMIT: i64 = 1_000_000_000;

/// Magnitude bound on player and enemy stats (health, speeds, ranges).
pub const STAT_LIMIT: i64 = 1_000_000_000;

/// Upper bound on map dimensions (10 000 whole units), strictly inside the
/// coordinate box so that a clamped stray projectile still registers as
/// out of bounds.
pub const MAP_LIMIT: i64 = 100_000_000;

/// Upper bound on clock readings (milliseconds); far beyond any session
/// length, and low enough that adding an interval never wraps a `u64`.
pub const TIME_LIMIT: u64 = 4_000_000_000_000_000_000;

/// Upper bound on a single frame's duration (1 000 seconds).
pub const DT_LIMIT: u64 = 1_000_000;

/// Upper bound on the number of slots in an enemy pool.
pub const POOL_LIMIT: usize = 100_000;

/// Truncating (round-toward-zero) division, the semantics of Rust's `/`
/// on signed integers; spec-level `/` on `int` is Euclidean, so specs
/// about executable division go through this function.
pub open spec fn tdiv(a: int, b: int) -> int {
    if a >= 0 {
        a / b
    } else {
        -((-a) / b)
    }
}

/// Clamp `v` into `[lo, hi]`.
pub open spec fn clamp_spec(v: int, lo: int, hi: int) -> int {
    if v < lo {
        lo
    } else if v > hi {
        hi
    } else {
        v
    }
}

pub fn clamp_i64(v: i64, lo: i64, hi: i64) -> (r: i64)
    requires
        lo <= hi,
    ensures
        r == clamp_spec(v as int, lo as int, hi as int),
{
    if v < lo {
        lo
    } else if v > hi {
        hi
    } else {
        v
    }
}

/// Truncating division of a signed fixed-point value by a positive divisor.
pub fn div_trunc(a: i64, b: i64) -> (r: i64)
    requires
        b > 0,
        a > i64::MIN,
    ensures
        r == tdiv(a as int, b as int),
{
    if a >= 0 {
        a / b
    } else {
        -((-a) / b)
    }
}

/// `v`, capped above at `cap`.
pub open spec fn min_cap(v: int, cap: int) -> int {
    if v > cap {
        cap
    } else {
        v
    }
}

/// `v`, held up at `floor`.
pub open spec fn max_floor(v: int, floor: int) -> int {
    if v < floor {
        floor
    } else {
        v
    }
}

/// Add a non-negative delta, saturating at `cap`; keeps growing stats
/// inside the machine word.
pub fn add_capped(x: i64, d: i64, cap: i64) -> (r: i64)
    requires
        0 <= d <= 4_000_000_000_000_000_000,
        -4_000_000_000_000_000_000 <= x <= cap,
        cap <= 4_000_000_000_000_000_000,
    ensures
        r == min_cap(x + d, cap as int),
        x <= r <= cap,
{
    if d > cap - x {
        cap
    } else {
        x + d
    }
}

/// Add two `u32` amounts of money, saturating at the type's maximum.
pub fn add_capped_u32(x: u32, d: u32) -> (r: u32)
    ensures
        r == min_cap(x + d, u32::MAX as int),
{
    if d > u32::MAX - x {
        u32::MAX
    } else {
        x + d
    }
}

/// Subtract a non-negative delta, saturating at `floor`.
pub fn sub_floored(x: i64, d: i64, floor: i64) -> (r: i64)
    requires
        0 <= d <= 4_000_000_000_000_000_000,
        floor <= x <= 4_000_000_000_000_000_000,
        floor >= -4_000_000_000_000_000_000,
    ensures
        r == max_floor(x - d, floor as int),
        floor <= r <= x,
{
    if d > x - floor {
        floor
    } else {
        x - d
    }
}

/// The integer square root, rounded down.
pub open spec fn sqrt_floor(n: nat) -> nat
    decreases n,
{
    if n == 0 {
        0
    } else {
        let r = sqrt_floor((n - 1) as nat);
        if (r + 1) * (r + 1) <= n {
            r + 1
        } else {
            r
        }
    }
}

/// `sqrt_floor(n)` is the unique `r` with `r * r <= n < (r + 1) * (r + 1)`.
pub proof fn lemma_sqrt_floor_bounds(n: nat)
    ensures
        sqrt_floor(n) * sqrt_floor(n) <= n,
        n < (sqrt_floor(n) + 1) * (sqrt_floor(n) + 1),
    decreases n,
{
    if n == 0 {
        assert(sqrt_floor(0) == 0);
        assert(sqrt_floor(n) * sqrt_floor(n) <= n);
        assert(n < (sqrt_floor(n) + 1) * (sqrt_floor(n) + 1)) by (nonlinear_arith)
            requires n == 0nat, sqrt_floor(n) == 0nat;
    } else {
        lemma_sqrt_floor_bounds((n - 1) as nat);
        let r = sqrt_floor((n - 1) as nat);
        assert(r * r <= n - 1 && n - 1 < (r + 1) * (r + 1));
        if (r + 1) * (r + 1) <= n {
            assert(sqrt_floor(n) == r + 1);
            assert(n == (r + 1) * (r + 1));
            assert((r + 2) * (r + 2) > (r + 1) * (r + 1)) by (nonlinear_arith);
            assert(n < (sqrt_floor(n) + 1) * (sqrt_floor(n) + 1));
        } else {
            assert(sqrt_floor(n) == r);
            assert(r * r <= n);
            assert(n < (r + 1) * (r + 1));
        }
    }
}

/// Any two square-root candidates for the same `n` agree.
pub proof fn lemma_sqrt_unique(n: nat, a: nat, b: nat)
    requires
        a * a <= n < (a + 1) * (a + 1),
        b * b <= n < (b + 1) * (b + 1),
    ensures
        a == b,
{
    if a < b {
        assert((a + 1) * (a + 1) <= b * b) by (nonlinear_arith)
            requires a + 1 <= b;
    }
    if b < a {
        assert((b + 1) * (b + 1) <= a * a) by (nonlinear_arith)
            requires b + 1 <= a;
    }
}

/// Largest argument `isqrt` accepts; any sum of two squared in-range
/// coordinate differences stays below it.
pub const ISQRT_MAX: u64 = 9_000_000_000_000_000_000;

/// Integer square root by bisection.
pub fn isqrt(n: u64) -> (r: u64)
    requires
        n <= ISQRT_MAX,
    ensures
        r == sqrt_floor(n as nat),
        r * r <= n,
        n < (r + 1) * (r + 1),
{
    if n == 0 {
        proof { lemma_sqrt_floor_bounds(0); }
        return 0;
    }
    let mut lo: u64 = 0;
    let mut hi: u64 = 4_294_967_295;
    proof {
        assert((4_294_967_295int) * (4_294_967_295int) > ISQRT_MAX as int);
    }
    while lo + 1 < hi
        invariant
            lo < hi <= 4_294_967_295,
            (lo as int) * (lo as int) <= n as int,
            (n as int) < (hi as int) * (hi as int),
        decreases hi - lo,
    {
        let mid = lo + (hi - lo) / 2;
        assert(lo < mid < hi);
        assert((mid as int) * (mid as int) < (4_294_967_295int) * (4_294_967_295int))
            by (nonlinear_arith)
            requires 0 <= (mid as int) < 4_294_967_295int;
        assert((4_294_967_295int) * (4_294_967_295int) <= u64::MAX as int);
        if mid * mid <= n {
            lo = mid;
        } else {
            hi = mid;
        }
    }
    proof {
        lemma_sqrt_floor_bounds(n as nat);
        assert(hi == lo + 1);
        lemma_sqrt_unique(n as nat, lo as nat, sqrt_floor(n as nat));
    }
    lo
}

} // verus!
