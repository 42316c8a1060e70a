//! Three-component vectors in fixed-point, and how they are brought to unit
//! length.

use crate::units::{floor_sqrt, integer_sqrt, is_floor_sqrt, magnitude, trunc_div, SCALE};
use vstd::prelude::*;

verus! {

/// A point, displacement or colour: three fixed-point components.
#[derive(Clone, Copy, Debug, PartialEq, Eq, Structural)]
pub struct Vec3 {
    pub x: i64,
    pub y: i64,
    pub z: i64,
}

/// Largest component magnitude for which a cross product cannot overflow.
pub const CROSS_MAX: i64 = 2_000_000_000;

/// Largest component magnitude that `Vec3::normalized` accepts.
pub const NORMALIZE_MAX: i64 = 2_000_000_000_000;

/// How far the length of a direction may differ from one unit, in millionths.
pub const UNIT_TOLERANCE: i64 = 10;

/// Inner product of two vectors. With both in millionths the result is in
/// millionths of millionths.
pub open spec fn dot(a: Vec3, b: Vec3) -> int {
    a.x * b.x + a.y * b.y + a.z * b.z
}

/// Squared length of a vector.
pub open spec fn norm_squared(v: Vec3) -> int {
    dot(v, v)
}

/// First component of the cross product of `a` and `b`.
pub open spec fn cross_x(a: Vec3, b: Vec3) -> int {
    a.y * b.z - a.z * b.y
}

/// Second component of the cross product of `a` and `b`.
pub open spec fn cross_y(a: Vec3, b: Vec3) -> int {
    a.z * b.x - a.x * b.z
}

/// Third component of the cross product of `a` and `b`.
pub open spec fn cross_z(a: Vec3, b: Vec3) -> int {
    a.x * b.y - a.y * b.x
}

/// Whether every component's magnitude is at most `bound`.
pub open spec fn within(v: Vec3, bound: int) -> bool {
    &&& -bound <= v.x <= bound
    &&& -bound <= v.y <= bound
    &&& -bound <= v.z <= bound
}

/// Whether the length of `v` is one unit, give or take `UNIT_TOLERANCE`.
pub open spec fn is_unit(v: Vec3) -> bool {
    (SCALE - UNIT_TOLERANCE) * (SCALE - UNIT_TOLERANCE) <= norm_squared(v) <= (SCALE
        + UNIT_TOLERANCE) * (SCALE + UNIT_TOLERANCE)
}

/// Whether `v` can be scaled to unit length: it is not the zero vector and
/// its components are small enough for the arithmetic.
pub open spec fn normalizable(v: Vec3) -> bool {
    &&& within(v, NORMALIZE_MAX as int)
    &&& !(v.x == 0 && v.y == 0 && v.z == 0)
}

/// Length of `v` carried to six further digits: the integer square root of
/// its squared length times `SCALE` squared.
pub open spec fn extended_length(v: Vec3) -> int {
    floor_sqrt(norm_squared(v) * (SCALE * SCALE))
}

/// One component of a vector of length `length` (as given by
/// `extended_length`), brought to unit length and rounded toward zero.
pub open spec fn unit_component(c: int, length: int) -> int {
    trunc_div(c * (SCALE * SCALE), length)
}

/// First component of `v` scaled to unit length.
pub open spec fn unit_x(v: Vec3) -> int {
    unit_component(v.x as int, extended_length(v))
}

/// Second component of `v` scaled to unit length.
pub open spec fn unit_y(v: Vec3) -> int {
    unit_component(v.y as int, extended_length(v))
}

/// Third component of `v` scaled to unit length.
pub open spec fn unit_z(v: Vec3) -> int {
    unit_component(v.z as int, extended_length(v))
}

/// `v` scaled to unit length.
pub open spec fn unit_of(v: Vec3) -> Vec3 {
    Vec3 { x: unit_x(v) as i64, y: unit_y(v) as i64, z: unit_z(v) as i64 }
}

/// Calls `cgmath::Vector3::cross` on `i64` components. That method returns
/// the vector `(a.y*b.z - a.z*b.y, a.z*b.x - a.x*b.z, a.x*b.y - a.y*b.x)`,
/// computed with the scalar type's own `*` and `-`; the bound on the
/// components keeps each of those inside an `i64`.
#[verifier::external_body]
fn cross_product(a: Vec3, b: Vec3) -> (c: Vec3)
    requires
        within(a, CROSS_MAX as int),
        within(b, CROSS_MAX as int),
    ensures
        c.x == cross_x(a, b),
        c.y == cross_y(a, b),
        c.z == cross_z(a, b),
{
    let c = cgmath::Vector3::new(a.x, a.y, a.z).cross(cgmath::Vector3::new(b.x, b.y, b.z));
    Vec3 { x: c.x, y: c.y, z: c.z }
}

impl Vec3 {
    /// The vector with the given components.
    pub fn new(x: i64, y: i64, z: i64) -> (v: Vec3)
        ensures
            v == (Vec3 { x, y, z }),
    {
        Vec3 { x, y, z }
    }

    /// Cross product of `self` and `other`, a vector at right angles to both.
    pub fn cross(self, other: Vec3) -> (c: Vec3)
        requires
            within(self, CROSS_MAX as int),
            within(other, CROSS_MAX as int),
        ensures
            c.x == cross_x(self, other),
            c.y == cross_y(self, other),
            c.z == cross_z(self, other),
            dot(c, self) == 0,
            dot(c, other) == 0,
    {
        let c = cross_product(self, other);
        proof {
            lemma_cross_is_perpendicular(self, other, c);
        }
        c
    }

    /// This vector scaled to unit length, each component rounded toward
    /// zero. Succeeds for every vector that is not zero and whose components
    /// are at most `NORMALIZE_MAX` in magnitude, and for no other.
    pub fn normalized(self) -> (r: Option<Vec3>)
        ensures
            r is Some <==> normalizable(self),
            r matches Some(u) ==> u == unit_of(self) && is_unit(u),
    {
        if self.x < -NORMALIZE_MAX || self.x > NORMALIZE_MAX || self.y < -NORMALIZE_MAX || self.y
            > NORMALIZE_MAX || self.z < -NORMALIZE_MAX || self.z > NORMALIZE_MAX {
            return None;
        }
        if self.x == 0 && self.y == 0 && self.z == 0 {
            return None;
        }
        let a: u128 = absolute(self.x);
        let b: u128 = absolute(self.y);
        let c: u128 = absolute(self.z);
        proof {
            lemma_square_bound(a as int);
            lemma_square_bound(b as int);
            lemma_square_bound(c as int);
            lemma_squared_magnitudes(self);
        }
        let squared: u128 = a * a + b * b + c * c;
        assert(squared * 1_000_000_000_000 <= 12_000_000_000_000_000_000_000_000
            * 1_000_000_000_000) by (nonlinear_arith)
            requires
                0 <= squared <= 12_000_000_000_000_000_000_000_000,
        ;
        let length: u128 = integer_sqrt(squared * 1_000_000_000_000);
        proof {
            assert(SCALE * SCALE == 1_000_000_000_000) by (nonlinear_arith)
                requires
                    SCALE == 1_000_000,
            ;
            assert(length == extended_length(self));
            lemma_unit_vector_is_unit(self);
        }
        let x = signed_quotient(self.x, a, length);
        let y = signed_quotient(self.y, b, length);
        let z = signed_quotient(self.z, c, length);
        Some(Vec3 { x, y, z })
    }
}

/// The cross product of two vectors is at right angles to each of them.
pub proof fn lemma_cross_is_perpendicular(a: Vec3, b: Vec3, c: Vec3)
    requires
        c.x == cross_x(a, b),
        c.y == cross_y(a, b),
        c.z == cross_z(a, b),
    ensures
        dot(c, a) == 0,
        dot(c, b) == 0,
{
    let (ax, ay, az) = (a.x as int, a.y as int, a.z as int);
    let (bx, by, bz) = (b.x as int, b.y as int, b.z as int);
    assert((ay * bz - az * by) * ax + (az * bx - ax * bz) * ay + (ax * by - ay * bx) * az == 0)
        by (nonlinear_arith);
    assert((ay * bz - az * by) * bx + (az * bx - ax * bz) * by + (ax * by - ay * bx) * bz == 0)
        by (nonlinear_arith);
}

/// Magnitude of `c` as an unsigned number.
fn absolute(c: i64) -> (a: u128)
    requires
        -NORMALIZE_MAX <= c <= NORMALIZE_MAX,
    ensures
        a == magnitude(c as int),
{
    if c >= 0 {
        c as u128
    } else {
        (-c) as u128
    }
}

/// `c` brought to unit length: its magnitude `a` times `SCALE` squared over
/// `length`, with the sign of `c`.
fn signed_quotient(c: i64, a: u128, length: u128) -> (q: i64)
    requires
        a == magnitude(c as int),
        a <= NORMALIZE_MAX,
        length > 0,
        -SCALE <= unit_component(c as int, length as int) <= SCALE,
    ensures
        q == unit_component(c as int, length as int),
{
    assert(a * 1_000_000_000_000 <= 2_000_000_000_000 * 1_000_000_000_000) by (nonlinear_arith)
        requires
            0 <= a <= 2_000_000_000_000,
    ;
    assert(SCALE * SCALE == 1_000_000_000_000) by (nonlinear_arith)
        requires
            SCALE == 1_000_000,
    ;
    let scaled: u128 = a * 1_000_000_000_000;
    let quotient: u128 = scaled / length;
    proof {
        if c >= 0 {
            assert(c * (SCALE * SCALE) == scaled);
            assert(c * (SCALE * SCALE) >= 0);
        } else {
            assert(-(c * (SCALE * SCALE)) == scaled) by (nonlinear_arith)
                requires
                    scaled == (-c) * 1_000_000_000_000,
                    SCALE * SCALE == 1_000_000_000_000,
            ;
            assert(c * (SCALE * SCALE) < 0) by (nonlinear_arith)
                requires
                    c < 0,
                    SCALE * SCALE == 1_000_000_000_000,
            ;
        }
    }
    if c >= 0 {
        quotient as i64
    } else {
        -(quotient as i64)
    }
}

/// The square of a magnitude within `NORMALIZE_MAX` is small.
proof fn lemma_square_bound(a: int)
    requires
        0 <= a <= NORMALIZE_MAX,
    ensures
        0 <= a * a <= 4_000_000_000_000_000_000_000_000,
{
    assert(0 <= a * a <= 4_000_000_000_000_000_000_000_000) by (nonlinear_arith)
        requires
            0 <= a <= 2_000_000_000_000,
    ;
}

/// The squared length of a vector is the sum of its squared magnitudes.
proof fn lemma_squared_magnitudes(v: Vec3)
    ensures
        norm_squared(v) == magnitude(v.x as int) * magnitude(v.x as int) + magnitude(v.y as int)
            * magnitude(v.y as int) + magnitude(v.z as int) * magnitude(v.z as int),
{
    lemma_magnitude_square(v.x as int);
    lemma_magnitude_square(v.y as int);
    lemma_magnitude_square(v.z as int);
}

/// A number and its magnitude have the same square.
pub proof fn lemma_magnitude_square(c: int)
    ensures
        magnitude(c) * magnitude(c) == c * c,
{
    assert((-c) * (-c) == c * c) by (nonlinear_arith);
}

/// What rounding down loses: for a magnitude `a` of a vector with squared
/// length `q` and extended length `l`, the quotient `p` of `a * SCALE^2` by `l`
/// is at most `SCALE`, and its square times `l` squared is within `2 * a *
/// SCALE^2 * l` of the square of `a * SCALE^2`.
proof fn lemma_component(a: int, q: int, l: int, p: int)
    requires
        0 <= a,
        a * a <= q,
        0 < l,
        is_floor_sqrt(q * 1_000_000_000_000, l),
        p == (a * 1_000_000_000_000) / l,
    ensures
        0 <= p <= 1_000_000,
        a * 1_000_000_000_000 <= l * 1_000_000,
        (p * l) * (p * l) <= (a * 1_000_000_000_000) * (a * 1_000_000_000_000),
        (p * l) * (p * l) >= (a * 1_000_000_000_000) * (a * 1_000_000_000_000) - 2 * (l * (a
            * 1_000_000_000_000)),
{
    let t: int = 1_000_000_000_000;
    let s: int = 1_000_000;
    let u = a * t;
    assert(u >= 0) by (nonlinear_arith)
        requires
            u == a * t,
            a >= 0,
            t > 0,
    ;
    // p is the quotient of u by l
    assert(p * l <= u < p * l + l && p >= 0) by (nonlinear_arith)
        requires
            p == u / l,
            u >= 0,
            l > 0,
    ;
    // a * s <= l
    let w = a * s;
    assert(w * w == (a * a) * t) by (nonlinear_arith)
        requires
            w == a * s,
            s * s == t,
    ;
    assert((a * a) * t <= q * t) by (nonlinear_arith)
        requires
            a * a <= q,
            t > 0,
    ;
    assert(w >= 0) by (nonlinear_arith)
        requires
            w == a * s,
            a >= 0,
            s > 0,
    ;
    if w > l {
        assert(w * w >= (l + 1) * (l + 1)) by (nonlinear_arith)
            requires
                w >= l + 1,
                l + 1 > 0,
        ;
    }
    assert(w <= l);
    assert(u == w * s) by (nonlinear_arith)
        requires
            u == a * t,
            w == a * s,
            t == s * s,
    ;
    assert(u <= l * s) by (nonlinear_arith)
        requires
            u == w * s,
            w <= l,
            s > 0,
    ;
    // p <= s
    if p > s {
        assert(p * l >= (s + 1) * l) by (nonlinear_arith)
            requires
                p >= s + 1,
                l > 0,
        ;
        assert((s + 1) * l > l * s) by (nonlinear_arith)
            requires
                l > 0,
        ;
    }
    // squares
    let m = p * l;
    assert(m >= 0) by (nonlinear_arith)
        requires
            m == p * l,
            p >= 0,
            l > 0,
    ;
    assert(m * m <= u * u) by (nonlinear_arith)
        requires
            0 <= m <= u,
    ;
    if u >= l {
        assert(m * m >= (u - l) * (u - l)) by (nonlinear_arith)
            requires
                m >= u - l,
                u - l >= 0,
        ;
        assert((u - l) * (u - l) >= u * u - 2 * (l * u)) by (nonlinear_arith);
    } else {
        assert(u * u - 2 * (l * u) <= 0) by (nonlinear_arith)
            requires
                0 <= u < l,
        ;
        assert(m * m >= 0) by (nonlinear_arith);
    }
}

/// Scaling a non-zero vector by `unit_component` gives a vector of unit
/// length: every component is at most `SCALE` in magnitude and the length is
/// within `UNIT_TOLERANCE` of `SCALE`.
pub proof fn lemma_unit_vector_is_unit(v: Vec3)
    requires
        normalizable(v),
    ensures
        extended_length(v) >= SCALE,
        -SCALE <= unit_x(v) <= SCALE,
        -SCALE <= unit_y(v) <= SCALE,
        -SCALE <= unit_z(v) <= SCALE,
        is_unit(unit_of(v)),
{
    let t: int = 1_000_000_000_000;
    let s: int = 1_000_000;
    assert(SCALE * SCALE == t) by (nonlinear_arith)
        requires
            SCALE == 1_000_000,
            t == 1_000_000_000_000,
    ;
    let a = magnitude(v.x as int);
    let b = magnitude(v.y as int);
    let c = magnitude(v.z as int);
    let q = norm_squared(v);
    lemma_squared_magnitudes(v);
    assert(a * a >= 0 && b * b >= 0 && c * c >= 0) by (nonlinear_arith);
    assert(q >= 1) by (nonlinear_arith)
        requires
            q == a * a + b * b + c * c,
            a >= 0,
            b >= 0,
            c >= 0,
            a > 0 || b > 0 || c > 0,
    ;
    // the extended length exists and is at least SCALE
    lemma_square_bound(a);
    lemma_square_bound(b);
    lemma_square_bound(c);
    assert(0 <= q * t <= 12_000_000_000_000_000_000_000_000 * 1_000_000_000_000)
        by (nonlinear_arith)
        requires
            1 <= q <= 12_000_000_000_000_000_000_000_000,
            t == 1_000_000_000_000,
    ;
    lemma_floor_sqrt_exists(q * t);
    let l = extended_length(v);
    assert(is_floor_sqrt(q * t, l));
    if l < s {
        assert((l + 1) * (l + 1) <= s * s) by (nonlinear_arith)
            requires
                0 <= l + 1 <= s,
        ;
        assert(q * t >= t) by (nonlinear_arith)
            requires
                q >= 1,
                t > 0,
        ;
    }
    assert(l >= s);
    let na = (a * t) / l;
    let nb = (b * t) / l;
    let nc = (c * t) / l;
    lemma_component(a, q, l, na);
    lemma_component(b, q, l, nb);
    lemma_component(c, q, l, nc);
    lemma_unit_component_magnitude(v.x as int, l, na);
    lemma_unit_component_magnitude(v.y as int, l, nb);
    lemma_unit_component_magnitude(v.z as int, l, nc);
    let n = na * na + nb * nb + nc * nc;
    assert(n == unit_x(v) * unit_x(v) + unit_y(v) * unit_y(v) + unit_z(v) * unit_z(v));
    let (u1, u2, u3) = (a * t, b * t, c * t);
    // sum of the squared numerators
    let tt = t * t;
    lemma_square_of_product(a, t);
    lemma_square_of_product(b, t);
    lemma_square_of_product(c, t);
    assert(t * (q * t) == q * tt) by (nonlinear_arith)
        requires
            tt == t * t,
    ;
    assert(q * tt == (a * a) * tt + (b * b) * tt + (c * c) * tt) by (nonlinear_arith)
        requires
            q == a * a + b * b + c * c,
    ;
    assert(u1 * u1 + u2 * u2 + u3 * u3 == t * (q * t));
    let ll = l * l;
    lemma_square_of_product(na, l);
    lemma_square_of_product(nb, l);
    lemma_square_of_product(nc, l);
    assert(n * ll == (na * na) * ll + (nb * nb) * ll + (nc * nc) * ll) by (nonlinear_arith)
        requires
            n == na * na + nb * nb + nc * nc,
    ;
    assert(n * ll == (na * l) * (na * l) + (nb * l) * (nb * l) + (nc * l) * (nc * l));
    assert(ll > 0) by (nonlinear_arith)
        requires
            ll == l * l,
            l > 0,
    ;
    // upper bound
    assert(n * ll < t * ((l + 1) * (l + 1))) by (nonlinear_arith)
        requires
            n * ll <= t * (q * t),
            q * t < (l + 1) * (l + 1),
            t > 0,
    ;
    assert(t * ((l + 1) * (l + 1)) <= ((s + 10) * (s + 10)) * ll) by {
        let g = (s + 10) * l;
        let h = s * (l + 1);
        assert(g >= h && h >= 0) by (nonlinear_arith)
            requires
                g == (s + 10) * l,
                h == s * (l + 1),
                l >= s,
                s == 1_000_000,
        ;
        assert(g * g >= h * h) by (nonlinear_arith)
            requires
                g >= h,
                h >= 0,
        ;
        assert(h * h == t * ((l + 1) * (l + 1))) by (nonlinear_arith)
            requires
                h == s * (l + 1),
                t == s * s,
        ;
        assert(g * g == ((s + 10) * (s + 10)) * ll) by (nonlinear_arith)
            requires
                g == (s + 10) * l,
                ll == l * l,
        ;
    }
    if n > (s + 10) * (s + 10) {
        assert(n * ll > ((s + 10) * (s + 10)) * ll) by (nonlinear_arith)
            requires
                n > (s + 10) * (s + 10),
                ll > 0,
        ;
    }
    // lower bound
    assert(l * u1 + l * u2 + l * u3 <= 3 * (s * ll)) by (nonlinear_arith)
        requires
            u1 <= l * s,
            u2 <= l * s,
            u3 <= l * s,
            ll == l * l,
            l > 0,
    ;
    assert(t * (q * t) >= t * ll) by (nonlinear_arith)
        requires
            q * t >= ll,
            t > 0,
    ;
    assert(n * ll >= t * ll - 6 * (s * ll));
    assert(t * ll - 6 * (s * ll) == (t - 6 * s) * ll) by (nonlinear_arith);
    if n < (s - 10) * (s - 10) {
        assert((s - 10) * (s - 10) <= t - 6 * s);
        assert(n * ll < (t - 6 * s) * ll) by (nonlinear_arith)
            requires
                n < t - 6 * s,
                ll > 0,
        ;
    }
}

/// The square of a product is the product of the squares.
proof fn lemma_square_of_product(a: int, b: int)
    ensures
        (a * b) * (a * b) == (a * a) * (b * b),
{
    assert((a * b) * (a * b) == (a * a) * (b * b)) by (nonlinear_arith);
}

/// `unit_component` is the quotient of the magnitudes with the sign of `c`.
proof fn lemma_unit_component_magnitude(c: int, l: int, p: int)
    requires
        l > 0,
        p == (magnitude(c) * 1_000_000_000_000) / l,
        0 <= p <= 1_000_000,
    ensures
        unit_component(c, l) == (if c >= 0 {
            p
        } else {
            -p
        }),
        unit_component(c, l) * unit_component(c, l) == p * p,
        -SCALE <= unit_component(c, l) <= SCALE,
{
    assert(SCALE * SCALE == 1_000_000_000_000) by (nonlinear_arith)
        requires
            SCALE == 1_000_000,
    ;
    if c >= 0 {
        assert(c * 1_000_000_000_000 >= 0) by (nonlinear_arith)
            requires
                c >= 0,
        ;
    } else {
        assert(c * 1_000_000_000_000 < 0) by (nonlinear_arith)
            requires
                c < 0,
        ;
        assert(-(c * 1_000_000_000_000) == (-c) * 1_000_000_000_000) by (nonlinear_arith);
        assert((-p) * (-p) == p * p) by (nonlinear_arith);
    }
}

/// Every non-negative number has an integer square root.
pub proof fn lemma_floor_sqrt_exists(n: int)
    requires
        0 <= n,
    ensures
        is_floor_sqrt(n, floor_sqrt(n)),
    decreases n,
{
    if n == 0 {
        assert(is_floor_sqrt(0, 0));
    } else {
        lemma_floor_sqrt_exists(n - 1);
        let r = floor_sqrt(n - 1);
        if (r + 1) * (r + 1) <= n {
            assert((r + 2) * (r + 2) > (r + 1) * (r + 1)) by (nonlinear_arith)
                requires
                    r >= 0,
            ;
            assert(is_floor_sqrt(n, r + 1));
        } else {
            assert(is_floor_sqrt(n, r));
        }
    }
}

/// The extended length of a vector whose length is within `k` counts of one
/// unit is within `k` counts of one unit too, times `SCALE`.
proof fn lemma_length_bounds(q: int, l: int, k: int)
    requires
        0 <= k < 1_000_000,
        (1_000_000 - k) * (1_000_000 - k) <= q <= (1_000_000 + k) * (1_000_000 + k),
        is_floor_sqrt(q * 1_000_000_000_000, l),
    ensures
        1_000_000 * (1_000_000 - k) <= l <= 1_000_000 * (1_000_000 + k),
{
    let s: int = 1_000_000;
    let t: int = 1_000_000_000_000;
    let high = s * (s + k);
    let low = s * (s - k);
    assert(high * high == t * ((s + k) * (s + k))) by (nonlinear_arith)
        requires
            high == s * (s + k),
            t == s * s,
    ;
    assert(low * low == t * ((s - k) * (s - k))) by (nonlinear_arith)
        requires
            low == s * (s - k),
            t == s * s,
    ;
    assert(q * t <= high * high) by (nonlinear_arith)
        requires
            q <= (s + k) * (s + k),
            high * high == t * ((s + k) * (s + k)),
            t > 0,
    ;
    assert(q * t >= low * low) by (nonlinear_arith)
        requires
            q >= (s - k) * (s - k),
            low * low == t * ((s - k) * (s - k)),
            t > 0,
    ;
    assert(high >= 0 && low >= 0) by (nonlinear_arith)
        requires
            high == s * (s + k),
            low == s * (s - k),
            s == 1_000_000,
            0 <= k < s,
    ;
    if l > high {
        assert(l * l > high * high) by (nonlinear_arith)
            requires
                l > high,
                high >= 0,
        ;
    }
    if l < low {
        assert((l + 1) * (l + 1) <= low * low) by (nonlinear_arith)
            requires
                0 <= l + 1 <= low,
        ;
    }
}

/// The quotient of `a * SCALE^2` by a length within `k` counts of one unit
/// is within `k + 1` of `a`.
proof fn lemma_quotient_close(a: int, l: int, p: int, k: int)
    requires
        0 <= a,
        0 <= k < 1_000_000,
        1_000_000 * (1_000_000 - k) <= l <= 1_000_000 * (1_000_000 + k),
        p == (a * 1_000_000_000_000) / l,
        0 <= p <= 1_000_000,
    ensures
        -k <= a - p <= k + 1,
{
    let s: int = 1_000_000;
    let t: int = 1_000_000_000_000;
    let u = a * t;
    assert(l > 0) by (nonlinear_arith)
        requires
            l >= s * (s - k),
            s == 1_000_000,
            0 <= k < s,
    ;
    assert(u >= 0) by (nonlinear_arith)
        requires
            u == a * t,
            a >= 0,
            t > 0,
    ;
    assert(p * l <= u < p * l + l) by (nonlinear_arith)
        requires
            p == u / l,
            u >= 0,
            l > 0,
    ;
    assert(u == (a * s) * s) by (nonlinear_arith)
        requires
            u == a * t,
            t == s * s,
    ;
    // p is not much above a
    assert(p * (s * (s - k)) <= p * l) by (nonlinear_arith)
        requires
            p >= 0,
            s * (s - k) <= l,
    ;
    assert(p * (s * (s - k)) == (p * (s - k)) * s) by (nonlinear_arith);
    assert(p * (s - k) <= a * s) by (nonlinear_arith)
        requires
            (p * (s - k)) * s <= (a * s) * s,
            s > 0,
    ;
    assert(p * (s - k) == p * s - p * k) by (nonlinear_arith);
    assert(p * k <= s * k) by (nonlinear_arith)
        requires
            0 <= p <= s,
            k >= 0,
    ;
    assert((p - a) * s == p * s - a * s) by (nonlinear_arith);
    assert(p - a <= k) by (nonlinear_arith)
        requires
            (p - a) * s <= s * k,
            s > 0,
    ;
    // a is not much above p
    assert((p + 1) * l <= (p + 1) * (s * (s + k))) by (nonlinear_arith)
        requires
            p + 1 >= 0,
            l <= s * (s + k),
    ;
    assert((p + 1) * (s * (s + k)) == ((p + 1) * (s + k)) * s) by (nonlinear_arith);
    assert(p * l + l == (p + 1) * l) by (nonlinear_arith);
    assert(a * s < (p + 1) * (s + k)) by (nonlinear_arith)
        requires
            (a * s) * s < ((p + 1) * (s + k)) * s,
            s > 0,
    ;
    assert((p + 1) * (s + k) == p * s + p * k + s + k) by (nonlinear_arith);
    assert((a - p) * s == a * s - p * s) by (nonlinear_arith);
    assert((a - p) * s < (k + 1) * s + k) by (nonlinear_arith)
        requires
            (a - p) * s < p * k + s + k,
            p * k <= s * k,
    ;
    if a - p >= k + 2 {
        assert((a - p) * s >= (k + 2) * s) by (nonlinear_arith)
            requires
                a - p >= k + 2,
                s > 0,
        ;
        assert((k + 2) * s == (k + 1) * s + s) by (nonlinear_arith);
    }
}

/// Scaling a vector that is nearly of unit length changes it little: where
/// the length of `v` is within `k` counts of one unit, each component of
/// `unit_of(v)` is within `k + 1` counts of the component of `v`. A vector
/// of unit length rounded to whole counts has `k` at most 1.
pub proof fn lemma_unit_of_changes_little(v: Vec3, k: int)
    requires
        0 <= k < SCALE,
        (SCALE - k) * (SCALE - k) <= norm_squared(v) <= (SCALE + k) * (SCALE + k),
    ensures
        normalizable(v),
        is_unit(unit_of(v)),
        -(k + 1) <= unit_of(v).x - v.x <= k + 1,
        -(k + 1) <= unit_of(v).y - v.y <= k + 1,
        -(k + 1) <= unit_of(v).z - v.z <= k + 1,
{
    let s: int = 1_000_000;
    let t: int = 1_000_000_000_000;
    let (x, y, z) = (v.x as int, v.y as int, v.z as int);
    let q = norm_squared(v);
    assert(SCALE * SCALE == t) by (nonlinear_arith)
        requires
            SCALE == 1_000_000,
            t == 1_000_000_000_000,
    ;
    // the vector is not zero and not large
    assert(x * x >= 0 && y * y >= 0 && z * z >= 0) by (nonlinear_arith);
    assert((s + k) * (s + k) <= 2_000_000 * 2_000_000) by (nonlinear_arith)
        requires
            0 <= k < s,
            s == 1_000_000,
    ;
    assert((s - k) * (s - k) > 0) by (nonlinear_arith)
        requires
            0 <= k < s,
    ;
    lemma_component_limit(x, 2_000_000);
    lemma_component_limit(y, 2_000_000);
    lemma_component_limit(z, 2_000_000);
    if x == 0 && y == 0 && z == 0 {
        assert(x * x + y * y + z * z == 0) by (nonlinear_arith)
            requires
                x == 0,
                y == 0,
                z == 0,
        ;
    }
    assert(normalizable(v));
    lemma_unit_vector_is_unit(v);
    let l = extended_length(v);
    assert(0 <= q * t) by (nonlinear_arith)
        requires
            q >= 0,
            t > 0,
    ;
    lemma_floor_sqrt_exists(q * t);
    lemma_length_bounds(q, l, k);
    let a = magnitude(x);
    let b = magnitude(y);
    let c = magnitude(z);
    let na = (a * t) / l;
    let nb = (b * t) / l;
    let nc = (c * t) / l;
    lemma_squared_magnitudes(v);
    assert(a * a >= 0 && b * b >= 0 && c * c >= 0) by (nonlinear_arith);
    lemma_component(a, q, l, na);
    lemma_component(b, q, l, nb);
    lemma_component(c, q, l, nc);
    lemma_unit_component_magnitude(x, l, na);
    lemma_unit_component_magnitude(y, l, nb);
    lemma_unit_component_magnitude(z, l, nc);
    lemma_quotient_close(a, l, na, k);
    lemma_quotient_close(b, l, nb, k);
    lemma_quotient_close(c, l, nc, k);
}

/// A number whose square is at most `bound` squared is at most `bound` in
/// magnitude.
pub proof fn lemma_component_limit(c: int, bound: int)
    requires
        0 <= bound,
        c * c <= bound * bound,
    ensures
        -bound <= c <= bound,
{
    if c > bound {
        assert(c * c > bound * bound) by (nonlinear_arith)
            requires
                c > bound,
                bound >= 0,
        ;
    }
    if c < -bound {
        assert(c * c > bound * bound) by (nonlinear_arith)
            requires
                c < -bound,
                bound >= 0,
        ;
    }
}

} // verus!
