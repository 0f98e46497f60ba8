//! Fixed-point 2D vectors: one world unit is `SCALE` steps of an `i64`.
use vstd::arithmetic::div_mod::{lemma_basic_div, lemma_div_pos_is_pos, lemma_fundamental_div_mod, lemma_mod_bound};
use vstd::prelude::*;

verus! {

/// Number of fixed-point steps in one world unit.
pub const SCALE: i64 = 1000;

/// Largest absolute value of a coordinate held by the simulation.
pub const COORD_LIMIT: i64 = 1_000_000_000;

/// Largest absolute value of a component of a difference of two coordinates.
pub const SPAN_LIMIT: i64 = 2_000_000_000;

/// `r` is the smallest non-negative integer whose square is at least `n`.
pub open spec fn is_ceil_sqrt(n: int, r: int) -> bool {
    &&& 0 <= r
    &&& n <= r * r
    &&& (r == 0 || (r - 1) * (r - 1) < n)
}

/// `r` is the largest non-negative integer whose square is at most `n`.
pub open spec fn is_floor_sqrt(n: int, r: int) -> bool {
    &&& 0 <= r
    &&& r * r <= n
    &&& n < (r + 1) * (r + 1)
}

pub open spec fn ceil_sqrt(n: int) -> int {
    choose|r: int| is_ceil_sqrt(n, r)
}

pub open spec fn floor_sqrt(n: int) -> int {
    choose|r: int| is_floor_sqrt(n, r)
}

proof fn lemma_square_monotone(a: int, b: int)
    requires
        0 <= a <= b,
    ensures
        a * a <= b * b,
{
    assert(a * a <= b * b) by (nonlinear_arith)
        requires
            0 <= a <= b,
    ;
}

proof fn lemma_ceil_sqrt_unique(n: int, a: int, b: int)
    requires
        is_ceil_sqrt(n, a),
        is_ceil_sqrt(n, b),
    ensures
        a == b,
{
    if a < b {
        lemma_square_monotone(a, b - 1);
    } else if b < a {
        lemma_square_monotone(b, a - 1);
    }
}

proof fn lemma_floor_sqrt_unique(n: int, a: int, b: int)
    requires
        is_floor_sqrt(n, a),
        is_floor_sqrt(n, b),
    ensures
        a == b,
{
    if a < b {
        lemma_square_monotone(a + 1, b);
    } else if b < a {
        lemma_square_monotone(b + 1, a);
    }
}

/// Integer square root, rounded down.
pub fn sqrt_floor(n: u64) -> (r: u64)
    requires
        n <= 9_000_000_000_000_000_000,
    ensures
        is_floor_sqrt(n as int, r as int),
        r == floor_sqrt(n as int),
        r <= 3_000_000_000,
{
    let mut lo: u64 = 0;
    let mut hi: u64 = 3_000_000_001;
    assert(3_000_000_001 * 3_000_000_001 > 9_000_000_000_000_000_000) by (nonlinear_arith);
    while lo + 1 < hi
        invariant
            lo < hi <= 3_000_000_001,
            lo * lo <= n,
            n < hi * hi,
        decreases hi - lo,
    {
        let mid: u64 = lo + (hi - lo) / 2;
        assert(mid * mid <= 3_000_000_001 * 3_000_000_001) by (nonlinear_arith)
            requires
                mid <= 3_000_000_001,
        ;
        if mid * mid <= n {
            lo = mid;
        } else {
            hi = mid;
        }
    }
    proof {
        lemma_floor_sqrt_unique(n as int, lo as int, floor_sqrt(n as int));
    }
    lo
}

/// Integer square root, rounded up.
pub fn sqrt_ceil(n: u64) -> (r: u64)
    requires
        n <= 9_000_000_000_000_000_000,
    ensures
        is_ceil_sqrt(n as int, r as int),
        r == ceil_sqrt(n as int),
        r <= 3_000_000_001,
{
    let f = sqrt_floor(n);
    let r = if f * f == n {
        assert(f == 0 || (f - 1) * (f - 1) < f * f) by (nonlinear_arith);
        f
    } else {
        f + 1
    };
    proof {
        assert(is_ceil_sqrt(n as int, r as int));
        assert(exists|w: int| is_ceil_sqrt(n as int, w));
        lemma_ceil_sqrt_unique(n as int, r as int, ceil_sqrt(n as int));
    }
    r
}

pub open spec fn abs(a: int) -> int {
    if a < 0 {
        -a
    } else {
        a
    }
}

/// `a / d`, rounded toward zero.
pub open spec fn div_toward_zero(a: int, d: int) -> int {
    if a < 0 {
        -((-a) / d)
    } else {
        a / d
    }
}

/// `a / d`, rounded away from zero.
pub open spec fn div_away_from_zero(a: int, d: int) -> int {
    if a < 0 {
        -((-a + d - 1) / d)
    } else {
        (a + d - 1) / d
    }
}

/// `a` held within `[-COORD_LIMIT, COORD_LIMIT]`.
pub open spec fn saturate(a: int) -> int {
    if a > COORD_LIMIT {
        COORD_LIMIT as int
    } else if a < -COORD_LIMIT {
        -COORD_LIMIT
    } else {
        a
    }
}

proof fn lemma_div_bounds(a: int, d: int)
    requires
        0 <= a,
        0 < d,
    ensures
        0 <= a / d,
        d * (a / d) <= a < d * (a / d) + d,
{
    lemma_fundamental_div_mod(a, d);
    lemma_mod_bound(a, d);
    lemma_div_pos_is_pos(a, d);
}

/// A component no longer than the divisor, scaled by `m / l` and rounded
/// toward zero, stays within `m`.
proof fn lemma_scaled_component_down(a: int, m: int, l: int)
    requires
        0 <= a <= l,
        0 <= m,
        0 < l,
    ensures
        0 <= (a * m) / l <= m,
        l * ((a * m) / l) <= a * m,
{
    assert(0 <= a * m <= l * m) by (nonlinear_arith)
        requires
            0 <= a <= l,
            0 <= m,
    ;
    lemma_div_bounds(a * m, l);
    let q = (a * m) / l;
    assert(q <= m) by (nonlinear_arith)
        requires
            l * q <= l * m,
            0 < l,
    ;
}

/// The same, rounded away from zero.
proof fn lemma_scaled_component_up(a: int, m: int, l: int)
    requires
        0 <= a <= l,
        0 <= m,
        0 < l,
    ensures
        0 <= (a * m + l - 1) / l <= m,
        a * m <= l * ((a * m + l - 1) / l),
{
    assert(0 <= a * m <= l * m) by (nonlinear_arith)
        requires
            0 <= a <= l,
            0 <= m,
    ;
    lemma_div_bounds(a * m + l - 1, l);
    let q = (a * m + l - 1) / l;
    assert(q <= m) by (nonlinear_arith)
        requires
            l * q <= a * m + l - 1,
            a * m <= l * m,
            0 < l,
    ;
}

proof fn lemma_component_within_root(c: int, n: int, l: int)
    requires
        c * c <= n,
        n <= l * l,
        0 <= l,
    ensures
        abs(c) <= l,
{
    if abs(c) > l {
        lemma_square_monotone(l, abs(c));
        assert(abs(c) * abs(c) == c * c) by (nonlinear_arith);
        assert(l * l < abs(c) * abs(c)) by (nonlinear_arith)
            requires
                0 <= l < abs(c),
        ;
    }
}

proof fn lemma_scaled_squares(ax: int, ay: int, qx: int, qy: int, m: int, l: int)
    ensures
        (l * qx) * (l * qx) + (l * qy) * (l * qy) == (l * l) * (qx * qx + qy * qy),
        (ax * m) * (ax * m) + (ay * m) * (ay * m) == (m * m) * (ax * ax + ay * ay),
{
    assert((l * qx) * (l * qx) + (l * qy) * (l * qy) == (l * l) * (qx * qx + qy * qy))
        by (nonlinear_arith);
    assert((ax * m) * (ax * m) + (ay * m) * (ay * m) == (m * m) * (ax * ax + ay * ay))
        by (nonlinear_arith);
}

/// Scaled lengths: if `l * qx <= ax * m` and `l * qy <= ay * m` with
/// `ax² + ay² <= l²`, then `qx² + qy² <= m²`.
proof fn lemma_length_scaled_down(ax: int, ay: int, qx: int, qy: int, m: int, l: int)
    requires
        0 <= ax,
        0 <= ay,
        0 <= qx,
        0 <= qy,
        0 <= m,
        0 < l,
        l * qx <= ax * m,
        l * qy <= ay * m,
        ax * ax + ay * ay <= l * l,
    ensures
        qx * qx + qy * qy <= m * m,
{
    lemma_square_monotone(l * qx, ax * m);
    lemma_square_monotone(l * qy, ay * m);
    lemma_scaled_squares(ax, ay, qx, qy, m, l);
    let (l2, m2, s, n) = (l * l, m * m, qx * qx + qy * qy, ax * ax + ay * ay);
    assert(0 < l2) by (nonlinear_arith)
        requires
            0 < l,
            l2 == l * l,
    ;
    assert(m2 * n <= m2 * l2) by (nonlinear_arith)
        requires
            n <= l2,
            0 <= m2,
    ;
    assert(s <= m2) by (nonlinear_arith)
        requires
            l2 * s <= l2 * m2,
            0 < l2,
    ;
}

/// Scaled lengths: if `l * qx >= ax * m` and `l * qy >= ay * m` with
/// `ax² + ay² >= l²`, then `qx² + qy² >= m²`.
proof fn lemma_length_scaled_up(ax: int, ay: int, qx: int, qy: int, m: int, l: int)
    requires
        0 <= ax,
        0 <= ay,
        0 <= qx,
        0 <= qy,
        0 <= m,
        0 < l,
        l * qx >= ax * m,
        l * qy >= ay * m,
        ax * ax + ay * ay >= l * l,
    ensures
        qx * qx + qy * qy >= m * m,
{
    lemma_square_monotone(ax * m, l * qx);
    lemma_square_monotone(ay * m, l * qy);
    lemma_scaled_squares(ax, ay, qx, qy, m, l);
    let (l2, m2, s, n) = (l * l, m * m, qx * qx + qy * qy, ax * ax + ay * ay);
    assert(0 < l2) by (nonlinear_arith)
        requires
            0 < l,
            l2 == l * l,
    ;
    assert(m2 * n >= m2 * l2) by (nonlinear_arith)
        requires
            n >= l2,
            0 <= m2,
    ;
    assert(s >= m2) by (nonlinear_arith)
        requires
            l2 * s >= l2 * m2,
            0 < l2,
    ;
}

/// `c * m / l`, rounded toward zero, for a component no longer than `l`.
fn scale_component_down(c: i64, m: i64, l: u64) -> (r: i64)
    requires
        abs(c as int) <= l,
        l <= 3_000_000_001,
        0 <= m <= SPAN_LIMIT,
        0 < l,
    ensures
        r == div_toward_zero(c * m, l as int),
        abs(r as int) <= m,
        l * abs(r as int) <= abs(c as int) * m,
        (r < 0) ==> (c < 0),
        (r > 0) ==> (c > 0),
{
    let a: u64 = if c < 0 { (-c) as u64 } else { c as u64 };
    proof {
        lemma_scaled_component_down(a as int, m as int, l as int);
        assert(a * m <= 3_000_000_001 * 2_000_000_000) by (nonlinear_arith)
            requires
                a <= 3_000_000_001,
                m <= 2_000_000_000,
        ;
        assert((-c) * m == -(c * m)) by (nonlinear_arith);
    }
    let q: u64 = (a * (m as u64)) / l;
    if c < 0 {
        -(q as i64)
    } else {
        q as i64
    }
}

/// `c * m / l`, rounded away from zero, for a component no longer than `l`.
fn scale_component_up(c: i64, m: i64, l: u64) -> (r: i64)
    requires
        abs(c as int) <= l,
        l <= 3_000_000_001,
        0 <= m <= SPAN_LIMIT,
        0 < l,
    ensures
        r == div_away_from_zero(c * m, l as int),
        abs(r as int) <= m,
        l * abs(r as int) >= abs(c as int) * m,
{
    let a: u64 = if c < 0 { (-c) as u64 } else { c as u64 };
    proof {
        lemma_scaled_component_up(a as int, m as int, l as int);
        assert(a * m <= 3_000_000_001 * 2_000_000_000) by (nonlinear_arith)
            requires
                a <= 3_000_000_001,
                m <= 2_000_000_000,
        ;
        assert((-c) * m == -(c * m)) by (nonlinear_arith);
    }
    let q: u64 = (a * (m as u64) + l - 1) / l;
    assert(c < 0 ==> q == (-(c * m) + l - 1) / (l as int));
    assert(c >= 0 ==> q == ((c * m) + l - 1) / (l as int));
    if c < 0 {
        assert(c * m <= 0) by (nonlinear_arith)
            requires
                c < 0,
                m >= 0,
        ;
        proof {
            if c * m == 0 {
                assert(m == 0) by (nonlinear_arith)
                    requires
                        c < 0,
                        c * m == 0,
                ;
                lemma_basic_div((l - 1) as int, l as int);
            }
        }
        -(q as i64)
    } else {
        assert(c * m >= 0) by (nonlinear_arith)
            requires
                c >= 0,
                m >= 0,
        ;
        q as i64
    }
}

pub proof fn lemma_abs_square(c: int)
    ensures
        abs(c) * abs(c) == c * c,
        0 <= c * c,
{
    assert(abs(c) * abs(c) == c * c) by (nonlinear_arith);
    assert(0 <= c * c) by (nonlinear_arith);
}

proof fn lemma_zero_length(x: int, y: int)
    requires
        x * x + y * y == 0,
    ensures
        x == 0,
        y == 0,
{
    assert(x == 0 && y == 0) by (nonlinear_arith)
        requires
            x * x + y * y == 0,
    ;
}

proof fn lemma_same_sign_product(r: int, c: int)
    requires
        r < 0 ==> c < 0,
        r > 0 ==> c > 0,
    ensures
        r * c >= 0,
{
    assert(r * c >= 0) by (nonlinear_arith)
        requires
            r < 0 ==> c < 0,
            r > 0 ==> c > 0,
    ;
}

proof fn lemma_at_most_twice(q: int, a: int, m: int, l: int)
    requires
        0 <= q,
        0 <= a,
        0 < l,
        m <= 2 * l,
        l * q <= a * m,
    ensures
        q <= 2 * a,
{
    assert(a * m <= a * (2 * l)) by (nonlinear_arith)
        requires
            0 <= a,
            m <= 2 * l,
    ;
    assert(q <= 2 * a) by (nonlinear_arith)
        requires
            l * q <= a * (2 * l),
            0 < l,
    ;
}

/// A vector in fixed point: `SCALE` steps make one world unit.
#[derive(Clone, Copy, Debug, PartialEq, Eq, Structural)]
pub struct Vec2 {
    pub x: i64,
    pub y: i64,
}

pub open spec fn vec2(x: int, y: int) -> Vec2 {
    Vec2 { x: x as i64, y: y as i64 }
}

impl Vec2 {
    /// Both components lie in `[-b, b]`.
    pub open spec fn within(self, b: int) -> bool {
        &&& -b <= self.x <= b
        &&& -b <= self.y <= b
    }

    /// One world unit along +x.
    pub open spec fn unit_x() -> Vec2 {
        Vec2 { x: SCALE, y: 0 }
    }

    /// One world unit along +y.
    pub open spec fn unit_y() -> Vec2 {
        Vec2 { x: 0, y: SCALE }
    }

    pub open spec fn len_sq(self) -> int {
        self.x * self.x + self.y * self.y
    }

    /// Euclidean length, rounded up.
    pub open spec fn len(self) -> int {
        ceil_sqrt(self.len_sq())
    }

    pub open spec fn dot(self, o: Vec2) -> int {
        self.x * o.x + self.y * o.y
    }

    pub open spec fn plus(self, o: Vec2) -> Vec2 {
        vec2(self.x + o.x, self.y + o.y)
    }

    pub open spec fn minus(self, o: Vec2) -> Vec2 {
        vec2(self.x - o.x, self.y - o.y)
    }

    pub open spec fn negated(self) -> Vec2 {
        vec2(-self.x, -self.y)
    }

    /// The sum, each component held within `COORD_LIMIT`.
    pub open spec fn saturating_plus(self, o: Vec2) -> Vec2 {
        vec2(saturate(self.x + o.x), saturate(self.y + o.y))
    }

    /// The direction of `self` with length `m`, rounded toward zero, so the
    /// result is never longer than `m`; the zero vector stays zero.
    pub open spec fn scaled_to(self, m: int) -> Vec2 {
        if self.len_sq() == 0 {
            self
        } else {
            vec2(
                div_toward_zero(self.x * m, self.len()),
                div_toward_zero(self.y * m, self.len()),
            )
        }
    }

    /// The direction of `self` with length `m`, rounded away from zero, so
    /// the result is never shorter than `m`; the zero vector stays zero.
    pub open spec fn scaled_up_to(self, m: int) -> Vec2 {
        if self.len_sq() == 0 {
            self
        } else {
            vec2(
                div_away_from_zero(self.x * m, floor_sqrt(self.len_sq())),
                div_away_from_zero(self.y * m, floor_sqrt(self.len_sq())),
            )
        }
    }

    /// `self`, shortened to length `m` if it is longer.
    pub open spec fn clamped_max(self, m: int) -> Vec2 {
        if self.len_sq() <= m * m {
            self
        } else {
            self.scaled_to(m)
        }
    }

    /// `self`, lengthened to length `m` if it is shorter (and not zero).
    pub open spec fn clamped_min(self, m: int) -> Vec2 {
        if self.len_sq() >= m * m {
            self
        } else {
            self.scaled_up_to(m)
        }
    }

    /// `self` times the fixed-point factor `s`, rounded away from zero (so
    /// the product is never shorter than the exact one) and held within
    /// `COORD_LIMIT`.
    pub open spec fn times(self, s: int) -> Vec2 {
        vec2(
            saturate(div_away_from_zero(self.x * s, SCALE as int)),
            saturate(div_away_from_zero(self.y * s, SCALE as int)),
        )
    }

    pub fn new(x: i64, y: i64) -> (r: Vec2)
        ensures
            r.x == x,
            r.y == y,
    {
        Vec2 { x, y }
    }

    pub fn zero() -> (r: Vec2)
        ensures
            r.x == 0,
            r.y == 0,
    {
        Vec2 { x: 0, y: 0 }
    }

    pub fn add(self, o: Vec2) -> (r: Vec2)
        requires
            self.within(COORD_LIMIT as int),
            o.within(COORD_LIMIT as int),
        ensures
            r == self.plus(o),
            r.within(SPAN_LIMIT as int),
    {
        Vec2 { x: self.x + o.x, y: self.y + o.y }
    }

    pub fn sub(self, o: Vec2) -> (r: Vec2)
        requires
            self.within(COORD_LIMIT as int),
            o.within(COORD_LIMIT as int),
        ensures
            r == self.minus(o),
            r.within(SPAN_LIMIT as int),
    {
        Vec2 { x: self.x - o.x, y: self.y - o.y }
    }

    pub fn neg(self) -> (r: Vec2)
        requires
            self.within(SPAN_LIMIT as int),
        ensures
            r == self.negated(),
            r.len_sq() == self.len_sq(),
    {
        proof {
            assert((-self.x) * (-self.x) == self.x * self.x) by (nonlinear_arith);
            assert((-self.y) * (-self.y) == self.y * self.y) by (nonlinear_arith);
        }
        Vec2 { x: -self.x, y: -self.y }
    }

    pub fn saturating_add(self, o: Vec2) -> (r: Vec2)
        requires
            self.within(COORD_LIMIT as int),
            o.within(COORD_LIMIT as int),
        ensures
            r == self.saturating_plus(o),
            r.within(COORD_LIMIT as int),
    {
        Vec2 { x: saturate_exec(self.x + o.x), y: saturate_exec(self.y + o.y) }
    }

    pub fn length_squared(&self) -> (r: u64)
        requires
            self.within(SPAN_LIMIT as int),
        ensures
            r == self.len_sq(),
            r <= 8_000_000_000_000_000_000,
    {
        let ax: u64 = if self.x < 0 { (-self.x) as u64 } else { self.x as u64 };
        let ay: u64 = if self.y < 0 { (-self.y) as u64 } else { self.y as u64 };
        proof {
            lemma_abs_square(self.x as int);
            lemma_abs_square(self.y as int);
            lemma_square_monotone(ax as int, 2_000_000_000);
            lemma_square_monotone(ay as int, 2_000_000_000);
        }
        ax * ax + ay * ay
    }

    /// Euclidean length, rounded up.
    pub fn length(&self) -> (r: i64)
        requires
            self.within(SPAN_LIMIT as int),
        ensures
            r == self.len(),
            is_ceil_sqrt(self.len_sq(), r as int),
            0 <= r <= 3_000_000_001,
    {
        sqrt_ceil(self.length_squared()) as i64
    }

    /// The direction of `self` with length `m`; see `scaled_to`.
    pub fn scale_to(self, m: i64) -> (r: Vec2)
        requires
            self.within(SPAN_LIMIT as int),
            0 <= m <= SPAN_LIMIT,
        ensures
            r == self.scaled_to(m as int),
            r.within(m as int),
            r.len_sq() <= m * m,
            r.dot(self) >= 0,
            m <= 2 * self.len() ==> abs(r.x as int) <= 2 * abs(self.x as int) && abs(r.y as int)
                <= 2 * abs(self.y as int),
            r.x * self.x >= 0,
            r.y * self.y >= 0,
    {
        let n = self.length_squared();
        proof {
            lemma_abs_square(self.x as int);
            lemma_abs_square(self.y as int);
        }
        if n == 0 {
            proof {
                lemma_zero_length(self.x as int, self.y as int);
                lemma_abs_square(m as int);
            }
            return self;
        }
        let l = sqrt_ceil(n);
        proof {
            lemma_component_within_root(self.x as int, n as int, l as int);
            lemma_component_within_root(self.y as int, n as int, l as int);
        }
        let x = scale_component_down(self.x, m, l);
        let y = scale_component_down(self.y, m, l);
        proof {
            lemma_abs_square(x as int);
            lemma_abs_square(y as int);
            lemma_length_scaled_down(
                abs(self.x as int),
                abs(self.y as int),
                abs(x as int),
                abs(y as int),
                m as int,
                l as int,
            );
            lemma_same_sign_product(x as int, self.x as int);
            lemma_same_sign_product(y as int, self.y as int);
            if m <= 2 * l {
                lemma_at_most_twice(abs(x as int), abs(self.x as int), m as int, l as int);
                lemma_at_most_twice(abs(y as int), abs(self.y as int), m as int, l as int);
            }
        }
        Vec2 { x, y }
    }

    /// The direction of `self` with length `m`; see `scaled_up_to`.
    pub fn scale_up_to(self, m: i64) -> (r: Vec2)
        requires
            self.within(SPAN_LIMIT as int),
            0 <= m <= SPAN_LIMIT,
        ensures
            r == self.scaled_up_to(m as int),
            r.within(m as int),
            self.len_sq() == 0 ==> r.len_sq() == 0,
            self.len_sq() > 0 ==> r.len_sq() >= m * m,
    {
        let n = self.length_squared();
        proof {
            lemma_abs_square(self.x as int);
            lemma_abs_square(self.y as int);
        }
        if n == 0 {
            proof {
                lemma_zero_length(self.x as int, self.y as int);
            }
            return self;
        }
        let l = sqrt_floor(n);
        proof {
            assert(l > 0) by (nonlinear_arith)
                requires
                    n >= 1,
                    n < (l + 1) * (l + 1),
                    l >= 0,
            ;
            lemma_component_within_root(self.x as int, n as int, (l + 1) as int);
            lemma_component_within_root(self.y as int, n as int, (l + 1) as int);
            if abs(self.x as int) == l + 1 {
                lemma_abs_square(self.x as int);
            }
            if abs(self.y as int) == l + 1 {
                lemma_abs_square(self.y as int);
            }
        }
        let x = scale_component_up(self.x, m, l);
        let y = scale_component_up(self.y, m, l);
        proof {
            lemma_abs_square(x as int);
            lemma_abs_square(y as int);
            lemma_length_scaled_up(
                abs(self.x as int),
                abs(self.y as int),
                abs(x as int),
                abs(y as int),
                m as int,
                l as int,
            );
        }
        Vec2 { x, y }
    }

    /// `self`, shortened to length `m` if it is longer.
    pub fn clamp_length_max(self, m: i64) -> (r: Vec2)
        requires
            self.within(SPAN_LIMIT as int),
            0 <= m <= SPAN_LIMIT,
        ensures
            r == self.clamped_max(m as int),
            r.within(m as int),
            r.len_sq() <= m * m,
    {
        let n = self.length_squared();
        proof {
            lemma_square_monotone(m as int, 2_000_000_000);
        }
        if n <= (m as u64) * (m as u64) {
            proof {
                lemma_abs_square(self.x as int);
                lemma_abs_square(self.y as int);
                lemma_component_within_root(self.x as int, n as int, m as int);
                lemma_component_within_root(self.y as int, n as int, m as int);
            }
            self
        } else {
            self.scale_to(m)
        }
    }

    /// `self`, lengthened to length `m` if it is shorter and not zero.
    pub fn clamp_length_min(self, m: i64) -> (r: Vec2)
        requires
            self.within(SPAN_LIMIT as int),
            0 <= m <= SPAN_LIMIT,
        ensures
            r == self.clamped_min(m as int),
            r.within(SPAN_LIMIT as int),
            self.within(COORD_LIMIT as int) && m <= COORD_LIMIT ==> r.within(COORD_LIMIT as int),
            self.len_sq() > 0 ==> r.len_sq() >= m * m,
    {
        let n = self.length_squared();
        proof {
            lemma_square_monotone(m as int, 2_000_000_000);
        }
        if n >= (m as u64) * (m as u64) {
            self
        } else {
            self.scale_up_to(m)
        }
    }

    /// `self` times the fixed-point factor `s`; see `times`.
    pub fn mul_fixed(self, s: i64) -> (r: Vec2)
        requires
            self.within(COORD_LIMIT as int),
            0 <= s <= COORD_LIMIT,
        ensures
            r == self.times(s as int),
            r.within(COORD_LIMIT as int),
            self.len_sq() >= SCALE * SCALE ==> r.len_sq() >= s * s,
    {
        let x = mul_fixed_component(self.x, s);
        let y = mul_fixed_component(self.y, s);
        proof {
            lemma_abs_square(x as int);
            lemma_abs_square(y as int);
            lemma_abs_square(self.x as int);
            lemma_abs_square(self.y as int);
            if self.len_sq() >= SCALE * SCALE {
                if abs(x as int) == COORD_LIMIT || abs(y as int) == COORD_LIMIT {
                    lemma_square_monotone(s as int, COORD_LIMIT as int);
                } else {
                    lemma_length_scaled_up(
                        abs(self.x as int),
                        abs(self.y as int),
                        abs(x as int),
                        abs(y as int),
                        s as int,
                        SCALE as int,
                    );
                }
            }
        }
        Vec2 { x, y }
    }
}

/// A vector no longer than `b` has each component within `b`.
pub proof fn lemma_within_length(v: Vec2, b: int)
    requires
        0 <= b,
        v.len_sq() <= b * b,
    ensures
        v.within(b),
{
    lemma_abs_square(v.x as int);
    lemma_abs_square(v.y as int);
    lemma_component_within_root(v.x as int, v.len_sq(), b);
    lemma_component_within_root(v.y as int, v.len_sq(), b);
}

fn saturate_exec(a: i64) -> (r: i64)
    ensures
        r == saturate(a as int),
{
    if a > COORD_LIMIT {
        COORD_LIMIT
    } else if a < -COORD_LIMIT {
        -COORD_LIMIT
    } else {
        a
    }
}

fn mul_fixed_component(c: i64, s: i64) -> (r: i64)
    requires
        -COORD_LIMIT <= c <= COORD_LIMIT,
        0 <= s <= COORD_LIMIT,
    ensures
        r == saturate(div_away_from_zero(c * s, SCALE as int)),
        abs(r as int) == COORD_LIMIT || SCALE * abs(r as int) >= abs(c as int) * s,
{
    let a: i64 = if c < 0 { -c } else { c };
    proof {
        assert(0 <= a * s <= 1_000_000_000_000_000_000) by (nonlinear_arith)
            requires
                0 <= a <= 1_000_000_000,
                0 <= s <= 1_000_000_000,
        ;
        assert((-c) * s == -(c * s)) by (nonlinear_arith);
        assert(c >= 0 ==> c * s >= 0) by (nonlinear_arith)
            requires
                s >= 0,
        ;
    }
    let q: i64 = (a * s + SCALE - 1) / SCALE;
    proof {
        lemma_div_bounds(a * s + SCALE - 1, SCALE as int);
        assert(c < 0 ==> q == (-(c * s) + SCALE - 1) / (SCALE as int));
        assert(c >= 0 ==> q == ((c * s) + SCALE - 1) / (SCALE as int));
    }
    let signed: i64 = if c < 0 { -q } else { q };
    saturate_exec(signed)
}

} // verus!
