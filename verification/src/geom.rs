//! Integer 2D geometry: vectors, velocities, truncating halving and scaling
//! (matching hardware signed division), an exact integer square root, and the
//! throw-cap clamp on linear velocity.

use vstd::prelude::*;

verus! {

/// A 2D point or vector in coordinate units (`UNITS_PER_PIXEL` per pixel).
#[derive(Debug, Clone, Copy, PartialEq, Eq, Structural)]
pub struct Vec2i {
    pub x: i64,
    pub y: i64,
}

/// A rigid-body velocity: linear velocity in units per second and angular
/// velocity in milliradians per second.
#[derive(Debug, Clone, Copy, PartialEq, Eq, Structural)]
pub struct Velocity2 {
    pub linvel: Vec2i,
    pub angvel: i64,
}

impl Velocity2 {
    /// The zero velocity, given to every merged item.
    pub fn zero() -> (r: Velocity2)
        ensures
            r.linvel.x == 0 && r.linvel.y == 0 && r.angvel == 0,
    {
        Velocity2 { linvel: Vec2i { x: 0, y: 0 }, angvel: 0 }
    }
}

/// Halving that rounds toward zero, as `a / 2` does on machine integers.
pub open spec fn spec_half_toward_zero(a: int) -> int {
    if a >= 0 {
        a / 2
    } else {
        -((-a) / 2)
    }
}

/// `(a * num) / den` rounding toward zero, the scaling used for velocity
/// damping and for the throw-cap clamp.
pub open spec fn spec_scale_toward_zero(a: int, num: int, den: int) -> int {
    if a >= 0 {
        (a * num) / den
    } else {
        -(((-a) * num) / den)
    }
}

/// The squared Euclidean length of a vector.
pub open spec fn spec_speed_sq(v: Vec2i) -> int {
    v.x * v.x + v.y * v.y
}

/// The arithmetic midpoint of two points, each coordinate rounded toward zero.
pub open spec fn spec_midpoint(a: Vec2i, b: Vec2i) -> Vec2i {
    Vec2i {
        x: spec_half_toward_zero(a.x + b.x) as i64,
        y: spec_half_toward_zero(a.y + b.y) as i64,
    }
}

/// The integer square root: the largest `r` with `r * r <= n`.
pub open spec fn spec_isqrt(n: nat) -> nat
    decreases n,
{
    if n == 0 {
        0
    } else {
        let r = spec_isqrt((n - 1) as nat);
        if (r + 1) * (r + 1) <= n {
            r + 1
        } else {
            r
        }
    }
}

/// `spec_isqrt(n)` is characterized by `r * r <= n < (r + 1) * (r + 1)`.
pub proof fn lemma_isqrt_bounds(n: nat)
    ensures
        spec_isqrt(n) * spec_isqrt(n) <= n,
        n < (spec_isqrt(n) + 1) * (spec_isqrt(n) + 1),
    decreases n,
{
    if n == 0 {
        let s = spec_isqrt(n);
        assert(s == 0);
        assert(n < (s + 1) * (s + 1)) by (nonlinear_arith)
            requires
                s == 0nat,
                n == 0nat,
        ;
    } else {
        lemma_isqrt_bounds((n - 1) as nat);
        let r = spec_isqrt((n - 1) as nat);
        assert(r * r <= n - 1);
        assert(n - 1 < (r + 1) * (r + 1));
        let s = spec_isqrt(n);
        if (r + 1) * (r + 1) <= n {
            assert(s == r + 1);
            assert(n < (s + 1) * (s + 1)) by (nonlinear_arith)
                requires
                    n - 1 < (r + 1) * (r + 1),
                    s == r + 1,
            ;
        } else {
            assert(s == r);
            assert(n < (s + 1) * (s + 1)) by (nonlinear_arith)
                requires
                    s == r,
                    n < (r + 1) * (r + 1),
            ;
        }
    }
}

/// No two naturals satisfy the square-root characterization of the same `n`.
pub proof fn lemma_isqrt_unique(n: nat, r: nat)
    requires
        r * r <= n,
        n < (r + 1) * (r + 1),
    ensures
        r == spec_isqrt(n),
{
    lemma_isqrt_bounds(n);
    let s = spec_isqrt(n);
    assert(r == s) by (nonlinear_arith)
        requires
            r * r <= n,
            n < (r + 1) * (r + 1),
            s * s <= n,
            n < (s + 1) * (s + 1),
    ;
}

/// The throw cap as a function: a vector within the cap is unchanged, a
/// faster one has each component scaled by `cap / (isqrt(|v|^2) + 1)`, which
/// preserves its direction and lands strictly inside the cap.
pub open spec fn spec_clamp_linear(v: Vec2i, cap: i64) -> Vec2i {
    if spec_speed_sq(v) <= cap * cap {
        v
    } else {
        let d = spec_isqrt(spec_speed_sq(v) as nat) + 1;
        Vec2i {
            x: spec_scale_toward_zero(v.x as int, cap as int, d as int) as i64,
            y: spec_scale_toward_zero(v.y as int, cap as int, d as int) as i64,
        }
    }
}

/// Rounds `a` toward zero by one halving, exactly as `a / 2` would.
pub fn half_toward_zero(a: i64) -> (r: i64)
    requires
        i64::MIN < a,
    ensures
        r == spec_half_toward_zero(a as int),
{
    if a >= 0 {
        a / 2
    } else {
        -((-a) / 2)
    }
}

/// The integer square root of `n`, by binary search.
pub fn isqrt(n: u64) -> (r: u64)
    ensures
        r == spec_isqrt(n as nat),
        r * r <= n,
        n < (r + 1) * (r + 1),
        r < 4_294_967_296,
{
    let mut lo: u64 = 0;
    let mut hi: u64 = 4_294_967_296;
    assert((4_294_967_296int * 4_294_967_296) > u64::MAX);
    while lo + 1 < hi
        invariant
            lo < hi <= 4_294_967_296,
            lo * lo <= n,
            (n as int) < (hi as int) * (hi as int),
        decreases hi - lo,
    {
        let mid = lo + (hi - lo) / 2;
        assert(lo < mid < hi);
        assert(mid * mid <= u64::MAX) by (nonlinear_arith)
            requires
                mid < 4_294_967_296u64,
        ;
        if mid * mid <= n {
            lo = mid;
        } else {
            hi = mid;
        }
    }
    proof {
        lemma_isqrt_unique(n as nat, lo as nat);
    }
    lo
}

/// The bound behind the throw cap: when a scaled vector's components satisfy
/// `s * d <= a * c` and the unscaled length lies below `d`, the scaled length is
/// at most `c`.
proof fn lemma_scale_bounds(ax: int, ay: int, c: int, d: int, sx: int, sy: int)
    by (nonlinear_arith)
    requires
        ax >= 0,
        ay >= 0,
        sx >= 0,
        sy >= 0,
        c > 0,
        d > 0,
        ax * ax + ay * ay < d * d,
        sx * d <= ax * c,
        sy * d <= ay * c,
    ensures
        sx * sx + sy * sy <= c * c,
        sx <= c,
        sy <= c,
{
    assert(sx * sx * (d * d) <= (ax * c) * (ax * c));
    assert(sy * sy * (d * d) <= (ay * c) * (ay * c));
    assert((sx * sx + sy * sy) * (d * d) <= (ax * ax + ay * ay) * (c * c));
    assert((sx * sx + sy * sy) * (d * d) < (d * d) * (c * c));
}

/// Caps a linear velocity's magnitude at `cap`, preserving its direction: a
/// vector already within the cap is returned unchanged, a faster one is
/// scaled by `cap / (isqrt(|v|^2) + 1)`, which lands strictly inside the cap.
pub fn clamp_linear_speed(v: Vec2i, cap: i64) -> (r: Vec2i)
    requires
        0 < cap <= 1_000_000_000,
        -crate::VEL_LIMIT <= v.x <= crate::VEL_LIMIT,
        -crate::VEL_LIMIT <= v.y <= crate::VEL_LIMIT,
    ensures
        r == spec_clamp_linear(v, cap),
        spec_speed_sq(r) <= cap * cap,
{
    let ax: u64 = if v.x < 0 { (-v.x) as u64 } else { v.x as u64 };
    let ay: u64 = if v.y < 0 { (-v.y) as u64 } else { v.y as u64 };
    assert(ax * ax + ay * ay <= 8_000_000_000_000_000_000u64) by (nonlinear_arith)
        requires
            ax <= 2_000_000_000u64,
            ay <= 2_000_000_000u64,
    ;
    assert((ax as int) * (ax as int) == (v.x as int) * (v.x as int)) by (nonlinear_arith)
        requires
            ax as int == v.x as int || ax as int == -(v.x as int),
    ;
    assert((ay as int) * (ay as int) == (v.y as int) * (v.y as int)) by (nonlinear_arith)
        requires
            ay as int == v.y as int || ay as int == -(v.y as int),
    ;
    let n: u64 = ax * ax + ay * ay;
    assert(spec_speed_sq(v) == n);
    let capu: u64 = cap as u64;
    assert(capu * capu <= 1_000_000_000_000_000_000u64) by (nonlinear_arith)
        requires
            capu <= 1_000_000_000u64,
    ;
    if n <= capu * capu {
        v
    } else {
        let m = isqrt(n);
        let d: u64 = m + 1;
        assert(ax * capu <= 2_000_000_000_000_000_000u64) by (nonlinear_arith)
            requires
                ax <= 2_000_000_000u64,
                capu <= 1_000_000_000u64,
        ;
        assert(ay * capu <= 2_000_000_000_000_000_000u64) by (nonlinear_arith)
            requires
                ay <= 2_000_000_000u64,
                capu <= 1_000_000_000u64,
        ;
        let sx: u64 = (ax * capu) / d;
        let sy: u64 = (ay * capu) / d;
        proof {
            let axc = (ax * capu) as int;
            let ayc = (ay * capu) as int;
            let di = d as int;
            vstd::arithmetic::div_mod::lemma_fundamental_div_mod(axc, di);
            vstd::arithmetic::div_mod::lemma_fundamental_div_mod(ayc, di);
            vstd::arithmetic::div_mod::lemma_mod_bound(axc, di);
            vstd::arithmetic::div_mod::lemma_mod_bound(ayc, di);
            assert((sx as int) * di <= axc) by (nonlinear_arith)
                requires
                    axc == di * (sx as int) + (axc % di),
                    axc % di >= 0,
            ;
            assert((sy as int) * di <= ayc) by (nonlinear_arith)
                requires
                    ayc == di * (sy as int) + (ayc % di),
                    ayc % di >= 0,
            ;
            lemma_scale_bounds(ax as int, ay as int, capu as int, d as int, sx as int, sy as int);
        }
        let rx: i64 = if v.x < 0 { -(sx as i64) } else { sx as i64 };
        let ry: i64 = if v.y < 0 { -(sy as i64) } else { sy as i64 };
        let r = Vec2i { x: rx, y: ry };
        assert((rx as int) * (rx as int) == (sx as int) * (sx as int)) by (nonlinear_arith)
            requires
                rx as int == sx as int || rx as int == -(sx as int),
        ;
        assert((ry as int) * (ry as int) == (sy as int) * (sy as int)) by (nonlinear_arith)
            requires
                ry as int == sy as int || ry as int == -(sy as int),
        ;
        assert(spec_speed_sq(r) == sx * sx + sy * sy);
        r
    }
}

} // verus!
