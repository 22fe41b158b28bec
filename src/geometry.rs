use vstd::prelude::*;

verus! {

/// One world unit, in the fixed-point length unit used for every coordinate.
pub const UNIT: i64 = 1000;

/// Simulation ticks per second; one tick lasts 1/30 s.
pub const TICKS_PER_SECOND: i64 = 30;

/// The value 1.0 of the fixed-point sine and cosine.
pub const TRIG_ONE: i64 = 1_000_000;

/// A full turn, in thousandths of a degree.
pub const ANGLE_FULL: i64 = 360_000;

/// Half a turn, in thousandths of a degree.
pub const ANGLE_HALF: i64 = 180_000;

/// A quarter turn, in thousandths of a degree.
pub const ANGLE_QUARTER: i64 = 90_000;

/// Largest magnitude a stored coordinate may take; computed positions saturate here.
pub const COORD_LIMIT: i64 = 1_000_000_000_000;

/// A point or direction; coordinates are in thousandths of a world unit.
#[derive(Clone, Copy, Debug, PartialEq, Eq, Structural)]
pub struct Vec3 {
    pub x: i64,
    pub y: i64,
    pub z: i64,
}

pub open spec fn coord_ok(v: int) -> bool {
    -COORD_LIMIT <= v <= COORD_LIMIT
}

impl Vec3 {
    /// Every coordinate lies within the representable arena limit.
    pub open spec fn wf(self) -> bool {
        coord_ok(self.x as int) && coord_ok(self.y as int) && coord_ok(self.z as int)
    }
}

/// Squared horizontal (x/z) distance between two points.
pub open spec fn dist_sq_spec(a: Vec3, b: Vec3) -> int {
    (a.x - b.x) * (a.x - b.x) + (a.z - b.z) * (a.z - b.z)
}

/// Bhaskara's rational approximation of the sine on half a turn, scaled by `TRIG_ONE`.
pub open spec fn bhaskara(x: int) -> int {
    (4 * x * (ANGLE_HALF - x) * TRIG_ONE) / (5 * ANGLE_HALF * ANGLE_HALF / 4 - x * (ANGLE_HALF - x))
}

/// Fixed-point sine of an angle in `[0, ANGLE_FULL)`.
pub open spec fn sin_spec(a: int) -> int {
    if a < ANGLE_HALF {
        bhaskara(a)
    } else {
        -bhaskara(a - ANGLE_HALF)
    }
}

/// Fixed-point cosine of an angle in `[0, ANGLE_FULL)`.
pub open spec fn cos_spec(a: int) -> int {
    sin_spec((a + ANGLE_QUARTER) % (ANGLE_FULL as int))
}

/// Clamps a value to the coordinate limit.
pub open spec fn clamp_coord_spec(v: int) -> int {
    if v < -COORD_LIMIT {
        -COORD_LIMIT as int
    } else if v > COORD_LIMIT {
        COORD_LIMIT as int
    } else {
        v
    }
}

proof fn lemma_bhaskara_bounds(x: int)
    requires
        0 <= x <= ANGLE_HALF,
    ensures
        0 <= bhaskara(x) <= TRIG_ONE,
{
    let h = ANGLE_HALF as int;
    let p = x * (h - x);
    let d = 5 * h * h / 4;
    assert(0 <= p) by (nonlinear_arith)
        requires 0 <= x <= h, p == x * (h - x);
    assert(4 * p <= h * h) by (nonlinear_arith)
        requires p == x * (h - x);
    assert(d == 40_500_000_000);
    assert(h * h == 32_400_000_000);
    let num = 4 * x * (h - x) * TRIG_ONE;
    assert(num == 4 * p * TRIG_ONE) by (nonlinear_arith)
        requires p == x * (h - x), num == 4 * x * (h - x) * TRIG_ONE;
    assert(num <= (d - p) * TRIG_ONE) by (nonlinear_arith)
        requires num == 4 * p * TRIG_ONE, 4 * p <= h * h, d == 40_500_000_000, h * h == 32_400_000_000, 0 <= p;
    assert(0 <= num);
    vstd::arithmetic::div_mod::lemma_div_is_ordered(num, (d - p) * TRIG_ONE, d - p);
    vstd::arithmetic::div_mod::lemma_div_multiples_vanish(TRIG_ONE as int, d - p);
    vstd::arithmetic::div_mod::lemma_div_pos_is_pos(num, d - p);
}

/// The fixed-point sine and cosine lie in `[-TRIG_ONE, TRIG_ONE]`.
pub proof fn lemma_trig_bounds(a: int)
    requires
        0 <= a < ANGLE_FULL,
    ensures
        -TRIG_ONE <= sin_spec(a) <= TRIG_ONE,
        -TRIG_ONE <= cos_spec(a) <= TRIG_ONE,
{
    if a < ANGLE_HALF {
        lemma_bhaskara_bounds(a);
    } else {
        lemma_bhaskara_bounds(a - ANGLE_HALF);
    }
    let b = (a + ANGLE_QUARTER) % (ANGLE_FULL as int);
    if b < ANGLE_HALF {
        lemma_bhaskara_bounds(b);
    } else {
        lemma_bhaskara_bounds(b - ANGLE_HALF);
    }
}

fn bhaskara_exec(x: i64) -> (r: i64)
    requires
        0 <= x <= ANGLE_HALF,
    ensures
        r == bhaskara(x as int),
        0 <= r <= TRIG_ONE,
{
    proof {
        lemma_bhaskara_bounds(x as int);
    }
    assert(0 <= x * (ANGLE_HALF - x) <= 8_100_000_000) by (nonlinear_arith)
        requires 0 <= x <= ANGLE_HALF;
    let p: i64 = x * (ANGLE_HALF - x);
    let num: i64 = 4 * p * TRIG_ONE;
    let den: i64 = 40_500_000_000 - p;
    assert(4 * x * (ANGLE_HALF - x) * TRIG_ONE == 4 * p * TRIG_ONE) by (nonlinear_arith)
        requires p == x * (ANGLE_HALF - x);
    num / den
}

/// Fixed-point sine (scale `TRIG_ONE`) of an angle given in thousandths of a degree.
pub fn sin_approx(a: i64) -> (r: i64)
    requires
        0 <= a < ANGLE_FULL,
    ensures
        r == sin_spec(a as int),
        -TRIG_ONE <= r <= TRIG_ONE,
{
    if a < ANGLE_HALF {
        bhaskara_exec(a)
    } else {
        -bhaskara_exec(a - ANGLE_HALF)
    }
}

/// Fixed-point cosine (scale `TRIG_ONE`) of an angle given in thousandths of a degree.
pub fn cos_approx(a: i64) -> (r: i64)
    requires
        0 <= a < ANGLE_FULL,
    ensures
        r == cos_spec(a as int),
        -TRIG_ONE <= r <= TRIG_ONE,
{
    let b = if a + ANGLE_QUARTER >= ANGLE_FULL {
        a + ANGLE_QUARTER - ANGLE_FULL
    } else {
        a + ANGLE_QUARTER
    };
    assert(b == (a + ANGLE_QUARTER) % (ANGLE_FULL as int));
    sin_approx(b)
}

/// Floor division of a signed value by a positive divisor.
pub fn div_floor(a: i128, d: i128) -> (r: i128)
    requires
        d > 0,
        -0x1_0000_0000_0000_0000_0000_0000 <= a <= 0x1_0000_0000_0000_0000_0000_0000,
    ensures
        r == a / d,
{
    if a >= 0 {
        a / d
    } else {
        let m: i128 = -a;
        let q: i128 = m / d;
        proof {
            vstd::arithmetic::div_mod::lemma_fundamental_div_mod(m as int, d as int);
            vstd::arithmetic::div_mod::lemma_div_pos_is_pos(m as int, d as int);
            vstd::arithmetic::div_mod::lemma_div_is_ordered_by_denominator(m as int, 1, d as int);
            vstd::arithmetic::div_mod::lemma_fundamental_div_mod(a as int, d as int);
        }
        if m % d == 0 {
            proof {
                assert(a == d * (-q) + 0) by (nonlinear_arith)
                    requires m == d * q + m % d, a == -m, m % d == 0;
                vstd::arithmetic::div_mod::lemma_fundamental_div_mod_converse(a as int, d as int, -q, 0);
            }
            -q
        } else {
            proof {
                let rr = d - m % d;
                assert(a == d * (-q - 1) + rr) by (nonlinear_arith)
                    requires m == d * q + m % d, a == -m, rr == d - m % d;
                vstd::arithmetic::div_mod::lemma_fundamental_div_mod_converse(a as int, d as int, -q - 1, rr);
            }
            -q - 1
        }
    }
}

/// Clamps a wide intermediate value to the coordinate limit.
pub fn clamp_coord(v: i128) -> (r: i64)
    ensures
        r == clamp_coord_spec(v as int),
        coord_ok(r as int),
{
    if v < -(COORD_LIMIT as i128) {
        -COORD_LIMIT
    } else if v > COORD_LIMIT as i128 {
        COORD_LIMIT
    } else {
        v as i64
    }
}

/// Squared horizontal distance between two points within the coordinate limit.
pub fn dist_sq(a: Vec3, b: Vec3) -> (r: i128)
    requires
        a.wf(),
        b.wf(),
    ensures
        r == dist_sq_spec(a, b),
{
    let dx: i128 = a.x as i128 - b.x as i128;
    let dz: i128 = a.z as i128 - b.z as i128;
    assert(0 <= dx * dx <= 4_000_000_000_000_000_000_000_000) by (nonlinear_arith)
        requires -2_000_000_000_000 <= dx <= 2_000_000_000_000;
    assert(0 <= dz * dz <= 4_000_000_000_000_000_000_000_000) by (nonlinear_arith)
        requires -2_000_000_000_000 <= dz <= 2_000_000_000_000;
    dx * dx + dz * dz
}

/// Integer square root: the largest `r` with `r * r <= n`.
pub fn isqrt(n: u128) -> (r: u128)
    requires
        n <= 0x1_0000_0000_0000_0000_0000_0000,
    ensures
        r * r <= n < (r + 1) * (r + 1),
        r < 0x8_0000_0000_0000,
{
    let mut lo: u128 = 0;
    let mut hi: u128 = 0x8_0000_0000_0000;
    assert(n < hi * hi) by (nonlinear_arith)
        requires n <= 0x1_0000_0000_0000_0000_0000_0000, hi == 0x8_0000_0000_0000u128;
    while hi - lo > 1
        invariant
            lo < hi <= 0x8_0000_0000_0000,
            lo * lo <= n,
            n < hi * hi,
        decreases hi - lo,
    {
        let mid: u128 = lo + (hi - lo) / 2;
        assert(mid * mid <= 0x40_0000_0000_0000_0000_0000_0000) by (nonlinear_arith)
            requires mid <= 0x8_0000_0000_0000u128;
        if mid * mid <= n {
            lo = mid;
        } else {
            hi = mid;
        }
    }
    lo
}

} // verus!
