//! Plane vectors over fixed-point coordinates, with the integer square
//! root and the renormalisation that the bounce response needs.

use vstd::prelude::*;

verus! {

use vstd::arithmetic::div_mod::lemma_div_pos_is_pos;
use vstd::arithmetic::div_mod::lemma_remainder;
use vstd::arithmetic::div_mod::lemma_remainder_lower;

/// A plane vector; each component counts thousandths of a world unit.
#[derive(Clone, Copy, PartialEq, Eq, Structural)]
pub struct Vec2 {
    pub x: i64,
    pub y: i64,
}

impl Vec2 {
    pub fn new(x: i64, y: i64) -> (r: Vec2)
        ensures
            r.x == x,
            r.y == y,
    {
        Vec2 { x, y }
    }

    /// Mathematical dot product of two vectors.
    pub open spec fn dot(self, other: Vec2) -> int {
        self.x * other.x + self.y * other.y
    }

    /// Squared Euclidean length.
    pub open spec fn norm_sq(self) -> int {
        self.x * self.x + self.y * self.y
    }

    pub open spec fn is_zero(self) -> bool {
        self.x == 0 && self.y == 0
    }
}

/// Absolute value of a mathematical integer.
pub open spec fn abs_i(a: int) -> int {
    if a >= 0 {
        a
    } else {
        -a
    }
}

/// `mag`, carrying the sign of `a`.
pub open spec fn sign_apply(a: int, mag: int) -> int {
    if a >= 0 {
        mag
    } else {
        -mag
    }
}

/// Division rounding toward zero, as the machine division instruction
/// rounds; it differs from the Euclidean `/` only on negative numerators.
pub open spec fn div_trunc(n: int, d: int) -> int {
    if n >= 0 {
        n / d
    } else {
        -((-n) / d)
    }
}

/// Floor of the square root of `n`, defined by counting up.
pub open spec fn sqrt_floor(n: nat) -> nat
    decreases n,
{
    if n == 0 {
        0
    } else {
        let p = sqrt_floor((n - 1) as nat);
        if (p + 1) * (p + 1) <= n {
            p + 1
        } else {
            p
        }
    }
}

/// `sqrt_floor(n)` is the unique integer whose square is at most `n`
/// while the next square is beyond `n`.
pub proof fn lemma_sqrt_floor(n: nat)
    ensures
        sqrt_floor(n) * sqrt_floor(n) <= n,
        n < (sqrt_floor(n) + 1) * (sqrt_floor(n) + 1),
    decreases n,
{
    if n > 0 {
        let m = (n - 1) as nat;
        lemma_sqrt_floor(m);
        let p = sqrt_floor(m);
        assert(p * p <= m);
        assert(m < (p + 1) * (p + 1));
        if (p + 1) * (p + 1) <= n {
            assert(sqrt_floor(n) == p + 1);
            assert(n <= (p + 1) * (p + 1));
            assert((p + 1) * (p + 1) < (p + 2) * (p + 2)) by (nonlinear_arith);
            assert(sqrt_floor(n) * sqrt_floor(n) <= n);
            assert(n < (sqrt_floor(n) + 1) * (sqrt_floor(n) + 1));
        } else {
            assert(sqrt_floor(n) == p);
            assert(sqrt_floor(n) * sqrt_floor(n) <= n);
            assert(n < (sqrt_floor(n) + 1) * (sqrt_floor(n) + 1));
        }
    } else {
        assert(sqrt_floor(0) == 0);
        assert(sqrt_floor(n) * sqrt_floor(n) <= n);
        assert(n < (sqrt_floor(n) + 1) * (sqrt_floor(n) + 1)) by (nonlinear_arith)
            requires
                n == 0,
                sqrt_floor(n) == 0,
        ;
    }
}

/// Any integer bracketing `n` between consecutive squares is `sqrt_floor(n)`.
pub proof fn lemma_sqrt_floor_unique(n: nat, r: nat)
    requires
        r * r <= n,
        n < (r + 1) * (r + 1),
    ensures
        r == sqrt_floor(n),
{
    lemma_sqrt_floor(n);
    let s = sqrt_floor(n);
    if r < s {
        assert((r + 1) * (r + 1) <= s * s) by (nonlinear_arith)
            requires
                r + 1 <= s,
        ;
    }
    if s < r {
        assert((s + 1) * (s + 1) <= r * r) by (nonlinear_arith)
            requires
                s + 1 <= r,
        ;
    }
}

/// Prescale base for renormalisation: both components are lifted until
/// the larger sits between half this base and the base itself, so the
/// division that follows loses at most a few parts in a billion.
pub const NORM_SCALE: u64 = 0x8000_0000;

/// Largest component magnitude `normalize_to` accepts.
pub const NORM_INPUT_LIMIT: i64 = 0x4000_0000;

pub open spec fn max_i(a: int, b: int) -> int {
    if a >= b {
        a
    } else {
        b
    }
}

pub open spec fn min_i(a: int, b: int) -> int {
    if a <= b {
        a
    } else {
        b
    }
}

/// The factor by which both components are prescaled before dividing.
pub open spec fn norm_mul(v: Vec2) -> int {
    (NORM_SCALE as int) / max_i(abs_i(v.x as int), abs_i(v.y as int))
}

/// Magnitude of the x component after prescaling.
pub open spec fn norm_scaled_x(v: Vec2) -> int {
    abs_i(v.x as int) * norm_mul(v)
}

/// Magnitude of the y component after prescaling.
pub open spec fn norm_scaled_y(v: Vec2) -> int {
    abs_i(v.y as int) * norm_mul(v)
}

/// Length of the prescaled vector, rounded down.
pub open spec fn norm_len(v: Vec2) -> int {
    sqrt_floor((norm_scaled_x(v) * norm_scaled_x(v) + norm_scaled_y(v) * norm_scaled_y(v)) as nat) as int
}

/// The x component of `v` rescaled to length `target`.
pub open spec fn norm_x(v: Vec2, target: int) -> int {
    sign_apply(v.x as int, norm_scaled_x(v) * target / norm_len(v))
}

/// The y component of `v` rescaled to length `target`.
pub open spec fn norm_y(v: Vec2, target: int) -> int {
    sign_apply(v.y as int, norm_scaled_y(v) * target / norm_len(v))
}

/// Ranges of the prescaled components and length: the prescaled vector
/// is no longer than the base, no shorter than half of it, and each
/// component stays within the length.
pub proof fn lemma_norm_ranges(v: Vec2)
    requires
        !v.is_zero(),
        -NORM_INPUT_LIMIT <= v.x <= NORM_INPUT_LIMIT,
        -NORM_INPUT_LIMIT <= v.y <= NORM_INPUT_LIMIT,
    ensures
        1 <= norm_mul(v),
        0 <= norm_scaled_x(v) <= NORM_SCALE,
        0 <= norm_scaled_y(v) <= NORM_SCALE,
        max_i(norm_scaled_x(v), norm_scaled_y(v)) > NORM_SCALE / 2,
        norm_scaled_x(v) <= norm_len(v),
        norm_scaled_y(v) <= norm_len(v),
        NORM_SCALE / 2 < norm_len(v),
        norm_len(v) * norm_len(v) <= norm_scaled_x(v) * norm_scaled_x(v) + norm_scaled_y(v) * norm_scaled_y(v),
        norm_scaled_x(v) * norm_scaled_x(v) + norm_scaled_y(v) * norm_scaled_y(v) < (norm_len(v) + 1) * (norm_len(v) + 1),
{
    let c = NORM_SCALE as int;
    let ax = abs_i(v.x as int);
    let ay = abs_i(v.y as int);
    let m = max_i(ax, ay);
    let k = norm_mul(v);
    assert(1 <= m && m <= c / 2);
    lemma_remainder(c, m);
    assert(k * m == m * k) by (nonlinear_arith);
    assert(c - m < k * m <= c);
    assert(k >= 1) by (nonlinear_arith)
        requires
            k * m > c - m,
            1 <= m <= c / 2,
            c == 0x8000_0000,
    ;
    let a = norm_scaled_x(v);
    let b = norm_scaled_y(v);
    assert(a <= m * k && b <= m * k && m * k == if ax >= ay { a } else { b }) by (nonlinear_arith)
        requires
            0 <= ax <= m,
            0 <= ay <= m,
            k >= 1,
            a == ax * k,
            b == ay * k,
            m == max_i(ax, ay),
    ;
    assert(max_i(a, b) == m * k);
    assert(max_i(a, b) > c - m >= c / 2);
    let ss = (a * a + b * b) as nat;
    assert(a * a + b * b >= 0) by (nonlinear_arith)
        requires
            a >= 0,
            b >= 0,
    ;
    lemma_sqrt_floor(ss);
    let l = norm_len(v);
    assert(l == sqrt_floor(ss));
    assert(l * l <= ss < (l + 1) * (l + 1));
    assert(a <= l && b <= l) by (nonlinear_arith)
        requires
            0 <= a,
            0 <= b,
            0 <= l,
            a * a + b * b < (l + 1) * (l + 1),
    ;
    assert(NORM_SCALE / 2 < l);
}

/// Rescaling keeps each component within `target` and lands the squared
/// length in a narrow band around `target^2`: the speed after a bounce
/// is the nominal maximum up to a rounding error of a few thousandths
/// of a world unit.
pub proof fn lemma_norm_speed(v: Vec2, target: int)
    requires
        !v.is_zero(),
        -NORM_INPUT_LIMIT <= v.x <= NORM_INPUT_LIMIT,
        -NORM_INPUT_LIMIT <= v.y <= NORM_INPUT_LIMIT,
        1 <= target <= 0x10_0000,
    ensures
        0 <= norm_scaled_x(v) * target / norm_len(v) <= target,
        0 <= norm_scaled_y(v) * target / norm_len(v) <= target,
        abs_i(norm_x(v, target)) <= target,
        abs_i(norm_y(v, target)) <= target,
        target * target - 4 * target <= norm_x(v, target) * norm_x(v, target) + norm_y(v, target) * norm_y(v, target),
        norm_x(v, target) * norm_x(v, target) + norm_y(v, target) * norm_y(v, target) <= target * target + 2 * target,
{
    lemma_norm_ranges(v);
    let a = norm_scaled_x(v);
    let b = norm_scaled_y(v);
    let l = norm_len(v);
    let t = target;
    let p = a * t / l;
    let q = b * t / l;
    assert(0 <= a * t && 0 <= b * t && a * t <= l * t && b * t <= l * t) by (nonlinear_arith)
        requires
            0 <= a <= l,
            0 <= b <= l,
            1 <= t,
    ;
    assert(1 <= l && t <= l);
    lemma_remainder(a * t, l);
    lemma_remainder(b * t, l);
    assert(p * l == (a * t / l) * l && q * l == (b * t / l) * l) by (nonlinear_arith)
        requires
            p == a * t / l,
            q == b * t / l,
    ;
    assert(0 <= a * t - p * l < l);
    assert(0 <= b * t - q * l < l);
    assert(0 <= p && p <= t) by (nonlinear_arith)
        requires
            0 <= a * t - p * l < l,
            0 <= a * t,
            a * t <= l * t,
            1 <= l,
            1 <= t,
    ;
    assert(0 <= q && q <= t) by (nonlinear_arith)
        requires
            0 <= b * t - q * l < l,
            0 <= b * t,
            b * t <= l * t,
            1 <= l,
            1 <= t,
    ;
    assert(norm_x(v, t) * norm_x(v, t) == p * p && norm_y(v, t) * norm_y(v, t) == q * q) by (nonlinear_arith)
        requires
            norm_x(v, t) == sign_apply(v.x as int, p),
            norm_y(v, t) == sign_apply(v.y as int, q),
            p == a * t / l,
            q == b * t / l,
    ;
    // Upper bound: each quotient underestimates the exact ratio, so the
    // squared sum cannot exceed target^2 by more than the length slack.
    assert((p * l) * (p * l) <= (a * t) * (a * t)) by (nonlinear_arith)
        requires
            0 <= p * l <= a * t,
    ;
    assert((q * l) * (q * l) <= (b * t) * (b * t)) by (nonlinear_arith)
        requires
            0 <= q * l <= b * t,
    ;
    assert((p * l) * (p * l) + (q * l) * (q * l) == (p * p + q * q) * (l * l)) by (nonlinear_arith);
    assert((a * t) * (a * t) + (b * t) * (b * t) == (t * t) * (a * a + b * b)) by (nonlinear_arith);
    assert((p * p + q * q) * (l * l) <= (t * t) * (a * a + b * b));
    assert(a * a + b * b <= l * l + 2 * l) by (nonlinear_arith)
        requires
            a * a + b * b < (l + 1) * (l + 1),
    ;
    assert((t * t) * (a * a + b * b) <= (t * t) * (l * l + 2 * l)) by (nonlinear_arith)
        requires
            a * a + b * b <= l * l + 2 * l,
            1 <= t,
    ;
    assert(p * p + q * q <= t * t + 2 * t) by (nonlinear_arith)
        requires
            (p * p + q * q) * (l * l) <= (t * t) * (l * l + 2 * l),
            1 <= t <= l,
            0 <= p,
            0 <= q,
    ;
    // Lower bound: each quotient loses less than one unit of the
    // divisor, which costs the squared sum at most 4 * target.
    assert((a * t) * (a * t) - 2 * (a * t) * l <= (p * l) * (p * l)) by (nonlinear_arith)
        requires
            0 <= a * t,
            a * t < p * l + l,
            0 <= p * l,
            1 <= l,
    ;
    assert((b * t) * (b * t) - 2 * (b * t) * l <= (q * l) * (q * l)) by (nonlinear_arith)
        requires
            0 <= b * t,
            b * t < q * l + l,
            0 <= q * l,
            1 <= l,
    ;
    assert((a * t) * (a * t) + (b * t) * (b * t) - 2 * (a * t) * l - 2 * (b * t) * l <= (p * p + q * q) * (l * l));
    assert(2 * (a * t) * l + 2 * (b * t) * l <= 4 * t * (l * l)) by (nonlinear_arith)
        requires
            0 <= a <= l,
            0 <= b <= l,
            1 <= t,
            1 <= l,
    ;
    assert((t * t) * (l * l) <= (t * t) * (a * a + b * b)) by (nonlinear_arith)
        requires
            l * l <= a * a + b * b,
            1 <= t,
    ;
    assert((t * t) * (l * l) - 4 * t * (l * l) <= (p * p + q * q) * (l * l));
    assert(t * t - 4 * t <= p * p + q * q) by (nonlinear_arith)
        requires
            (t * t) * (l * l) - 4 * t * (l * l) <= (p * p + q * q) * (l * l),
            1 <= l,
            1 <= t,
            0 <= p,
            0 <= q,
    ;
}

/// Returns `v` rescaled to length `target`, keeping its direction:
/// both components are the prescaled fixed-point quotients that
/// `norm_x` and `norm_y` state exactly.
pub fn normalize_to(v: Vec2, target: i64) -> (r: Vec2)
    requires
        !v.is_zero(),
        -NORM_INPUT_LIMIT <= v.x <= NORM_INPUT_LIMIT,
        -NORM_INPUT_LIMIT <= v.y <= NORM_INPUT_LIMIT,
        1 <= target <= 0x10_0000,
    ensures
        r.x == norm_x(v, target as int),
        r.y == norm_y(v, target as int),
        abs_i(r.x as int) <= target,
        abs_i(r.y as int) <= target,
{
    proof {
        lemma_norm_ranges(v);
        lemma_norm_speed(v, target as int);
    }
    let ax: u64 = if v.x >= 0 {
        v.x as u64
    } else {
        (-v.x) as u64
    };
    let ay: u64 = if v.y >= 0 {
        v.y as u64
    } else {
        (-v.y) as u64
    };
    assert(ax as int == abs_i(v.x as int) && ay as int == abs_i(v.y as int));
    let m: u64 = if ax >= ay {
        ax
    } else {
        ay
    };
    assert(m >= 1);
    let k: u64 = NORM_SCALE / m;
    let sx: u64 = ax * k;
    let sy: u64 = ay * k;
    assert(sx as int == norm_scaled_x(v) && sy as int == norm_scaled_y(v));
    assert(sx * sx + sy * sy <= 0x8000_0000_0000_0000u64) by (nonlinear_arith)
        requires
            sx <= 0x8000_0000u64,
            sy <= 0x8000_0000u64,
    ;
    let ss: u64 = sx * sx + sy * sy;
    let l: u64 = isqrt(ss);
    assert(l as int == norm_len(v));
    let t: u64 = target as u64;
    assert(sx * t <= 0x8000_0000u64 * 0x10_0000u64 && sy * t <= 0x8000_0000u64 * 0x10_0000u64)
        by (nonlinear_arith)
        requires
            sx <= 0x8000_0000u64,
            sy <= 0x8000_0000u64,
            t <= 0x10_0000u64,
    ;
    let p: u64 = sx * t / l;
    let q: u64 = sy * t / l;
    assert(p as int == norm_scaled_x(v) * (target as int) / norm_len(v));
    assert(q as int == norm_scaled_y(v) * (target as int) / norm_len(v));
    let rx: i64 = if v.x >= 0 {
        p as i64
    } else {
        -(p as i64)
    };
    let ry: i64 = if v.y >= 0 {
        q as i64
    } else {
        -(q as i64)
    };
    Vec2 { x: rx, y: ry }
}

/// `a * b / d`, rounding toward zero: the product of two fixed-point
/// quantities, rescaled back to fixed point.
pub fn mul_div_trunc(a: i64, b: i64, d: i64) -> (r: i64)
    requires
        1 <= d,
        -0x4000_0000_0000_0000 <= a * b <= 0x4000_0000_0000_0000,
    ensures
        r == div_trunc(a * b, d as int),
        abs_i(r as int) <= abs_i(a * b),
        abs_i(r as int) * d <= abs_i(a * b),
{
    let p: i64 = a * b;
    if p >= 0 {
        let quot: u64 = (p as u64) / (d as u64);
        proof {
            lemma_div_pos_is_pos(p as int, d as int);
            lemma_remainder_lower(p as int, d as int);
            assert(quot as int == (p as int) / (d as int));
            assert((quot as int) <= (quot as int) * (d as int)) by (nonlinear_arith)
                requires
                    0 <= quot as int,
                    1 <= d as int,
            ;
        }
        quot as i64
    } else {
        let n: u64 = (-p) as u64;
        let quot: u64 = n / (d as u64);
        proof {
            lemma_div_pos_is_pos(n as int, d as int);
            lemma_remainder_lower(n as int, d as int);
            assert(quot as int == (n as int) / (d as int));
            assert((quot as int) <= (quot as int) * (d as int)) by (nonlinear_arith)
                requires
                    0 <= quot as int,
                    1 <= d as int,
            ;
        }
        -(quot as i64)
    }
}

/// Truncating division shrinks: the quotient stays within the
/// numerator, even after scaling back by the divisor.
pub proof fn lemma_div_trunc_bound(z: int, d: int)
    requires
        1 <= d,
    ensures
        abs_i(div_trunc(z, d)) * d <= abs_i(z),
        abs_i(div_trunc(z, d)) <= abs_i(z),
{
    if z >= 0 {
        lemma_div_pos_is_pos(z, d);
        lemma_remainder_lower(z, d);
        assert(div_trunc(z, d) == z / d);
        assert((z / d) * d <= z);
        assert(z / d <= (z / d) * d) by (nonlinear_arith)
            requires
                0 <= z / d,
                1 <= d,
        ;
    } else {
        lemma_div_pos_is_pos(-z, d);
        lemma_remainder_lower(-z, d);
        assert(div_trunc(z, d) == -((-z) / d));
        assert(((-z) / d) * d <= -z);
        assert((-z) / d <= ((-z) / d) * d) by (nonlinear_arith)
            requires
                0 <= (-z) / d,
                1 <= d,
        ;
    }
}

/// Integer square root by bisection.
pub fn isqrt(n: u64) -> (r: u64)
    ensures
        r == sqrt_floor(n as nat),
        r * r <= n,
        n < (r + 1) * (r + 1),
{
    let mut lo: u64 = 0;
    let mut hi: u64 = 0x1_0000_0000;
    assert((n as int) < 0x1_0000_0000int * 0x1_0000_0000int);
    while lo + 1 < hi
        invariant
            lo < hi,
            hi <= 0x1_0000_0000,
            (lo as int) * (lo as int) <= n as int,
            (n as int) < (hi as int) * (hi as int),
        decreases hi - lo,
    {
        let mid = lo + (hi - lo) / 2;
        assert(lo < mid && mid < hi);
        assert((mid as int) * (mid as int) <= 0xffff_ffffi64 * 0xffff_ffffi64) by (nonlinear_arith)
            requires
                0 <= mid as int <= 0xffff_ffffi64,
        ;
        if mid * mid <= n {
            lo = mid;
        } else {
            hi = mid;
        }
    }
    proof {
        lemma_sqrt_floor_unique(n as nat, lo as nat);
    }
    lo
}

} // verus!
