use vstd::prelude::*;

verus! {

/// Sub-pixel units per pixel: every length and speed is an integer count of these.
pub const UNIT: i64 = 1000;

/// Width of the playfield.
pub const FIELD_WIDTH: i64 = 800_000;

/// Height of the playfield.
pub const FIELD_HEIGHT: i64 = 600_000;

/// Largest magnitude of a velocity component.
pub const VELOCITY_LIMIT: i64 = 100_000_000;

/// A full turn, in tenths of a degree.
pub const FULL_TURN: i64 = 3600;

/// The fixed-point value standing for 1 in sines and cosines.
pub const TRIG_ONE: i64 = 10_000;

/// A point or displacement on the plane.
#[derive(Clone, Copy, Debug, PartialEq, Eq, Structural)]
pub struct Vector {
    pub x: i64,
    pub y: i64,
}

/// The toroidal wrap rule of one axis: past the far edge goes to 0, below 0 goes to the far edge.
pub open spec fn wrapped(v: int, bound: int) -> int {
    if v > bound {
        0
    } else if v < 0 {
        bound
    } else {
        v
    }
}

pub open spec fn in_field(p: Vector) -> bool {
    0 <= p.x <= FIELD_WIDTH && 0 <= p.y <= FIELD_HEIGHT
}

/// Width of the band around the field where a point may lie before its next move wraps it.
pub const FIELD_MARGIN: i64 = 20_000;

/// Whether a point lies on the field or in the band around it.
pub open spec fn near_field(p: Vector) -> bool {
    -FIELD_MARGIN <= p.x <= FIELD_WIDTH + FIELD_MARGIN && -FIELD_MARGIN <= p.y <= FIELD_HEIGHT
        + FIELD_MARGIN
}

pub open spec fn bounded_velocity(v: Vector) -> bool {
    -VELOCITY_LIMIT <= v.x <= VELOCITY_LIMIT && -VELOCITY_LIMIT <= v.y <= VELOCITY_LIMIT
}

/// `v * num / den`, rounded toward zero.
pub open spec fn scaled(v: int, num: int, den: int) -> int {
    if v >= 0 {
        v * num / den
    } else {
        -((-v) * num / den)
    }
}

pub open spec fn clamped(v: int) -> int {
    if v > VELOCITY_LIMIT {
        VELOCITY_LIMIT as int
    } else if v < -VELOCITY_LIMIT {
        -VELOCITY_LIMIT
    } else {
        v
    }
}

/// Squared Euclidean distance between two points.
pub open spec fn dist_sq(a: Vector, b: Vector) -> int {
    (a.x - b.x) * (a.x - b.x) + (a.y - b.y) * (a.y - b.y)
}

/// Whether two points lie closer than `r`.
pub open spec fn within(a: Vector, b: Vector, r: int) -> bool {
    dist_sq(a, b) < r * r
}

/// Bhaskara's rational approximation of the sine on half a turn, `x` in tenths of a degree.
pub open spec fn half_sine(x: int) -> int {
    4 * x * (1800 - x) * TRIG_ONE / (4_050_000 - x * (1800 - x))
}

/// Sine of an angle in `[0, FULL_TURN)`, scaled by `TRIG_ONE`.
pub open spec fn sine(a: int) -> int {
    if a < 1800 {
        half_sine(a)
    } else {
        -half_sine(a - 1800)
    }
}

/// Cosine of an angle in `[0, FULL_TURN)`, scaled by `TRIG_ONE`.
pub open spec fn cosine(a: int) -> int {
    sine((a + 900) % (FULL_TURN as int))
}

/// The displacement of length `len` along heading `a`, where heading 0 points up the screen.
pub open spec fn heading_vector(a: int, len: int) -> Vector {
    Vector { x: trig_part(len, sine(a)) as i64, y: -trig_part(len, cosine(a)) as i64 }
}

/// The displacement of length `len` a quarter turn clockwise of heading `a`.
pub open spec fn sideways_vector(a: int, len: int) -> Vector {
    Vector { x: trig_part(len, cosine(a)) as i64, y: trig_part(len, sine(a)) as i64 }
}

/// `len * f / TRIG_ONE`, rounded toward zero.
pub open spec fn trig_part(len: int, f: int) -> int {
    if f >= 0 {
        len * f / (TRIG_ONE as int)
    } else {
        -(len * (-f) / (TRIG_ONE as int))
    }
}

pub fn wrap_coord(v: i64, bound: i64) -> (r: i64)
    requires
        bound >= 0,
    ensures
        r == wrapped(v as int, bound as int),
        0 <= r <= bound,
{
    if v > bound {
        0
    } else if v < 0 {
        bound
    } else {
        v
    }
}

/// Moves a point of the field by a bounded displacement, wrapping on each axis.
pub fn wrap_move(p: Vector, d: Vector) -> (r: Vector)
    requires
        near_field(p),
        -4 * VELOCITY_LIMIT <= d.x <= 4 * VELOCITY_LIMIT,
        -4 * VELOCITY_LIMIT <= d.y <= 4 * VELOCITY_LIMIT,
    ensures
        r.x == wrapped(p.x + d.x, FIELD_WIDTH as int),
        r.y == wrapped(p.y + d.y, FIELD_HEIGHT as int),
        in_field(r),
{
    Vector { x: wrap_coord(p.x + d.x, FIELD_WIDTH), y: wrap_coord(p.y + d.y, FIELD_HEIGHT) }
}

proof fn lemma_scaled_bounds(v: int, num: int, den: int)
    requires
        0 <= v,
        0 <= num <= den,
        0 < den,
    ensures
        0 <= v * num <= v * den,
        0 <= v * num / den <= v,
{
    assert(0 <= v * num <= v * den) by (nonlinear_arith)
        requires 0 <= v, 0 <= num <= den;
    assert(v * den / den == v) by (nonlinear_arith)
        requires den > 0;
    assert(v * num / den <= v * den / den) by (nonlinear_arith)
        requires 0 <= v * num <= v * den, den > 0;
    assert(0 <= v * num / den) by (nonlinear_arith)
        requires 0 <= v * num, den > 0;
}

pub fn scale(v: i64, num: i64, den: i64) -> (r: i64)
    requires
        -VELOCITY_LIMIT <= v <= VELOCITY_LIMIT,
        0 <= num <= den,
        0 < den <= 1_000_000,
    ensures
        r == scaled(v as int, num as int, den as int),
        -VELOCITY_LIMIT <= r <= VELOCITY_LIMIT,
        v >= 0 ==> 0 <= r <= v,
        v < 0 ==> v <= r <= 0,
{
    if v >= 0 {
        proof {
            lemma_scaled_bounds(v as int, num as int, den as int);
            assert(v * den <= 100_000_000_000_000) by (nonlinear_arith)
                requires 0 <= v <= VELOCITY_LIMIT, 0 < den <= 1_000_000;
        }
        v * num / den
    } else {
        let w: i64 = -v;
        proof {
            lemma_scaled_bounds(w as int, num as int, den as int);
            assert(w * den <= 100_000_000_000_000) by (nonlinear_arith)
                requires 0 <= w <= VELOCITY_LIMIT, 0 < den <= 1_000_000;
        }
        -(w * num / den)
    }
}

/// Multiplies a bounded value by a factor of at most 2, given in tenths.
pub fn scale_up(v: i64, tenths: i64) -> (r: i64)
    requires
        -VELOCITY_LIMIT <= v <= VELOCITY_LIMIT,
        0 <= tenths <= 20,
    ensures
        r == scaled(v as int, tenths as int, 10),
        -2 * VELOCITY_LIMIT <= r <= 2 * VELOCITY_LIMIT,
{
    if v >= 0 {
        proof {
            assert(0 <= v * tenths <= v * 20) by (nonlinear_arith)
                requires 0 <= v, 0 <= tenths <= 20;
        }
        v * tenths / 10
    } else {
        let w: i64 = -v;
        proof {
            assert(0 <= w * tenths <= w * 20) by (nonlinear_arith)
                requires 0 <= w, 0 <= tenths <= 20;
        }
        -(w * tenths / 10)
    }
}

pub fn clamp_velocity(v: i64) -> (r: i64)
    requires
        -2 * VELOCITY_LIMIT <= v <= 2 * VELOCITY_LIMIT,
    ensures
        r == clamped(v as int),
        -VELOCITY_LIMIT <= r <= VELOCITY_LIMIT,
{
    if v > VELOCITY_LIMIT {
        VELOCITY_LIMIT
    } else if v < -VELOCITY_LIMIT {
        -VELOCITY_LIMIT
    } else {
        v
    }
}

/// Adds an impulse to a velocity, holding each component within the limit.
pub fn add_clamped(v: Vector, d: Vector) -> (r: Vector)
    requires
        bounded_velocity(v),
        bounded_velocity(d),
    ensures
        r.x == clamped(v.x + d.x),
        r.y == clamped(v.y + d.y),
        bounded_velocity(r),
{
    Vector { x: clamp_velocity(v.x + d.x), y: clamp_velocity(v.y + d.y) }
}

/// Whether two points of the field lie closer than `r`.
pub fn is_within(a: Vector, b: Vector, r: i64) -> (res: bool)
    requires
        near_field(a),
        near_field(b),
        0 <= r <= 1_000_000_000,
    ensures
        res == within(a, b, r as int),
{
    let dx: i64 = a.x - b.x;
    let dy: i64 = a.y - b.y;
    proof {
        assert(dx * dx <= 705_600_000_000) by (nonlinear_arith)
            requires -840_000 <= dx <= 840_000;
        assert(dy * dy <= 409_600_000_000) by (nonlinear_arith)
            requires -640_000 <= dy <= 640_000;
        assert(0 <= dx * dx && 0 <= dy * dy) by (nonlinear_arith);
        assert(r * r <= 1_000_000_000_000_000_000) by (nonlinear_arith)
            requires 0 <= r <= 1_000_000_000;
    }
    dx * dx + dy * dy < r * r
}

proof fn lemma_half_sine_bounds(x: int)
    requires
        0 <= x <= 1800,
    ensures
        0 <= half_sine(x) <= TRIG_ONE,
{
    let p = x * (1800 - x);
    assert(0 <= p <= 810_000) by (nonlinear_arith)
        requires p == x * (1800 - x), 0 <= x <= 1800;
    assert(4 * x * (1800 - x) * TRIG_ONE == 4 * p * 10_000) by (nonlinear_arith)
        requires p == x * (1800 - x);
    let d = 4_050_000 - p;
    assert(4 * p * 10_000 <= d * 10_000);
    assert((4 * p * 10_000) / d <= (d * 10_000) / d) by (nonlinear_arith)
        requires 4 * p * 10_000 <= d * 10_000, d > 0;
    assert((d * 10_000) / d == 10_000) by (nonlinear_arith)
        requires d > 0;
    assert(0 <= (4 * p * 10_000) / d) by (nonlinear_arith)
        requires p >= 0, d > 0;
}

fn half_sine_exec(x: i64) -> (r: i64)
    requires
        0 <= x <= 1800,
    ensures
        r == half_sine(x as int),
        0 <= r <= TRIG_ONE,
{
    proof {
        lemma_half_sine_bounds(x as int);
        assert(0 <= x * (1800 - x) <= 810_000) by (nonlinear_arith)
            requires 0 <= x <= 1800;
    }
    let p: i64 = x * (1800 - x);
    proof {
        assert(4 * x * (1800 - x) * TRIG_ONE == 4 * p * TRIG_ONE) by (nonlinear_arith)
            requires p == x * (1800 - x);
    }
    4 * p * TRIG_ONE / (4_050_000 - p)
}

pub fn trig_part_exec(len: i64, f: i64) -> (r: i64)
    requires
        0 <= len <= VELOCITY_LIMIT,
        -TRIG_ONE <= f <= TRIG_ONE,
    ensures
        r == trig_part(len as int, f as int),
        -len <= r <= len,
{
    let g: i64 = if f >= 0 { f } else { -f };
    proof {
        lemma_scaled_bounds(len as int, g as int, TRIG_ONE as int);
        assert(len * TRIG_ONE <= 1_000_000_000_000) by (nonlinear_arith)
            requires 0 <= len <= VELOCITY_LIMIT;
    }
    let q: i64 = len * g / TRIG_ONE;
    if f >= 0 {
        q
    } else {
        -q
    }
}

/// Sine of an angle given in tenths of a degree in `[0, FULL_TURN)`.
pub fn sin_of(a: i64) -> (r: i64)
    requires
        0 <= a < FULL_TURN,
    ensures
        r == sine(a as int),
        -TRIG_ONE <= r <= TRIG_ONE,
{
    if a < 1800 {
        half_sine_exec(a)
    } else {
        -half_sine_exec(a - 1800)
    }
}

/// Cosine of an angle given in tenths of a degree in `[0, FULL_TURN)`.
pub fn cos_of(a: i64) -> (r: i64)
    requires
        0 <= a < FULL_TURN,
    ensures
        r == cosine(a as int),
        -TRIG_ONE <= r <= TRIG_ONE,
{
    sin_of((a + 900) % FULL_TURN)
}

/// The displacement of length `len` along heading `a`.
pub fn along_heading(a: i64, len: i64) -> (r: Vector)
    requires
        0 <= a < FULL_TURN,
        0 <= len <= VELOCITY_LIMIT,
    ensures
        r == heading_vector(a as int, len as int),
        bounded_velocity(r),
        -len <= r.x <= len && -len <= r.y <= len,
{
    let s = sin_of(a);
    let c = cos_of(a);
    Vector { x: trig_part_exec(len, s), y: -trig_part_exec(len, c) }
}

/// The displacement of length `len` a quarter turn clockwise of heading `a`.
pub fn across_heading(a: i64, len: i64) -> (r: Vector)
    requires
        0 <= a < FULL_TURN,
        0 <= len <= VELOCITY_LIMIT,
    ensures
        r == sideways_vector(a as int, len as int),
        bounded_velocity(r),
{
    let s = sin_of(a);
    let c = cos_of(a);
    Vector { x: trig_part_exec(len, c), y: trig_part_exec(len, s) }
}

} // verus!
