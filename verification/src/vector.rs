//! Lattice vectors, their mathematical model, and rescaling to a length.

use vstd::prelude::*;
use crate::sqrt::{floor_sqrt, isqrt, lemma_floor_sqrt, lemma_square_monotone};

verus! {

/// A vector of the plane with whole-number coordinates of any size: the model
/// that the contracts of this crate speak of.
pub struct SpecVector {
    pub x: int,
    pub y: int,
}

/// The magnitude of one coordinate after its vector, of squared length `s`, is
/// brought to length `len`: `|c| * len / sqrt(s)`, rounded down.
pub open spec fn scaled_magnitude(c: int, len: int, s: int) -> int {
    floor_sqrt(((c * c) * (len * len)) / s)
}

/// One coordinate after its vector, of squared length `s`, is brought to
/// length `len`: it keeps its sign and is rounded toward zero.
pub open spec fn scaled_coordinate(c: int, len: int, s: int) -> int {
    if c >= 0 {
        scaled_magnitude(c, len, s)
    } else {
        -scaled_magnitude(c, len, s)
    }
}

impl SpecVector {
    pub open spec fn zero() -> SpecVector {
        SpecVector { x: 0, y: 0 }
    }

    pub open spec fn is_zero(self) -> bool {
        self.x == 0 && self.y == 0
    }

    pub open spec fn plus(self, other: SpecVector) -> SpecVector {
        SpecVector { x: self.x + other.x, y: self.y + other.y }
    }

    pub open spec fn minus(self, other: SpecVector) -> SpecVector {
        SpecVector { x: self.x - other.x, y: self.y - other.y }
    }

    /// The square of the Euclidean length.
    pub open spec fn norm_sq(self) -> int {
        self.x * self.x + self.y * self.y
    }

    /// The vector along `self` of length `len`, each coordinate rounded toward
    /// zero. The zero vector has no direction and stays as it is.
    pub open spec fn with_length(self, len: int) -> SpecVector {
        if self.is_zero() {
            self
        } else {
            SpecVector {
                x: scaled_coordinate(self.x, len, self.norm_sq()),
                y: scaled_coordinate(self.y, len, self.norm_sq()),
            }
        }
    }

    /// `self` where it is no longer than `max`, else the vector along `self`
    /// of length `max`.
    pub open spec fn clamped(self, max: int) -> SpecVector {
        if self.norm_sq() <= max * max {
            self
        } else {
            self.with_length(max)
        }
    }

    /// Both coordinates fit a stored [`Vector`].
    pub open spec fn storable(self) -> bool {
        i32::MIN <= self.x <= i32::MAX && i32::MIN <= self.y <= i32::MAX
    }
}

/// The rounded magnitude `m` of a rescaled coordinate is the largest natural
/// number with `m * sqrt(s) <= |c| * len`.
pub proof fn lemma_scaled_magnitude(c: int, len: int, s: int)
    requires
        0 < s,
    ensures
        0 <= scaled_magnitude(c, len, s),
        scaled_magnitude(c, len, s) * scaled_magnitude(c, len, s) * s <= (c * c) * (len * len),
        (c * c) * (len * len) < (scaled_magnitude(c, len, s) + 1) * (scaled_magnitude(c, len, s)
            + 1) * s,
{
    let p = (c * c) * (len * len);
    let q = p / s;
    let m = scaled_magnitude(c, len, s);
    assert(0 <= p) by (nonlinear_arith)
        requires
            p == (c * c) * (len * len),
    ;
    assert(0 <= q && q * s <= p < (q + 1) * s) by (nonlinear_arith)
        requires
            0 <= p,
            0 < s,
            q == p / s,
    ;
    lemma_floor_sqrt(q);
    assert(m * m * s <= p) by (nonlinear_arith)
        requires
            m * m <= q,
            q * s <= p,
            0 < s,
    ;
    assert(p < (m + 1) * (m + 1) * s) by (nonlinear_arith)
        requires
            q < (m + 1) * (m + 1),
            p < (q + 1) * s,
            0 < s,
    ;
}

/// A rescaled coordinate is no larger than the length asked for, as long as
/// its square is part of the squared length `s`.
pub proof fn lemma_scaled_magnitude_le_len(c: int, len: int, s: int)
    requires
        0 < s,
        0 <= len,
        c * c <= s,
    ensures
        scaled_magnitude(c, len, s) <= len,
{
    let m = scaled_magnitude(c, len, s);
    lemma_scaled_magnitude(c, len, s);
    if m > len {
        lemma_square_monotone(len + 1, m);
        assert(false) by (nonlinear_arith)
            requires
                (len + 1) * (len + 1) <= m * m,
                m * m * s <= (c * c) * (len * len),
                c * c <= s,
                0 < s,
                0 <= len,
        ;
    }
}

/// Rescaling never yields a vector longer than the length asked for.
pub proof fn lemma_with_length_bound(v: SpecVector, len: int)
    requires
        0 <= len,
    ensures
        v.with_length(len).norm_sq() <= len * len,
{
    if v.is_zero() {
        assert(0 <= len * len) by (nonlinear_arith);
    } else {
        let s = v.norm_sq();
        let mx = scaled_magnitude(v.x, len, s);
        let my = scaled_magnitude(v.y, len, s);
        lemma_norm_sq_positive(v);
        lemma_scaled_magnitude(v.x, len, s);
        lemma_scaled_magnitude(v.y, len, s);
        let r = v.with_length(len);
        assert(r.x * r.x == mx * mx) by (nonlinear_arith)
            requires
                r.x == mx || r.x == -mx,
        ;
        assert(r.y * r.y == my * my) by (nonlinear_arith)
            requires
                r.y == my || r.y == -my,
        ;
        assert(mx * mx + my * my <= len * len) by (nonlinear_arith)
            requires
                mx * mx * s <= (v.x * v.x) * (len * len),
                my * my * s <= (v.y * v.y) * (len * len),
                s == v.x * v.x + v.y * v.y,
                0 < s,
        ;
    }
}

/// Rescaling loses less than one unit in each coordinate: pushed outward
/// by one unit each, the coordinates of the rescaled vector make a vector
/// longer than the length asked for.
pub proof fn lemma_with_length_near(v: SpecVector, len: int)
    requires
        0 <= len,
        !v.is_zero(),
    ensures
        (vstd::math::abs(v.with_length(len).x) + 1) * (vstd::math::abs(v.with_length(len).x) + 1)
            + (vstd::math::abs(v.with_length(len).y) + 1) * (vstd::math::abs(
            v.with_length(len).y,
        ) + 1) > len * len,
{
    let s = v.norm_sq();
    let mx = scaled_magnitude(v.x, len, s);
    let my = scaled_magnitude(v.y, len, s);
    lemma_norm_sq_positive(v);
    lemma_scaled_magnitude(v.x, len, s);
    lemma_scaled_magnitude(v.y, len, s);
    assert(vstd::math::abs(v.with_length(len).x) == mx);
    assert(vstd::math::abs(v.with_length(len).y) == my);
    assert((mx + 1) * (mx + 1) + (my + 1) * (my + 1) > len * len) by (nonlinear_arith)
        requires
            (v.x * v.x) * (len * len) < (mx + 1) * (mx + 1) * s,
            (v.y * v.y) * (len * len) < (my + 1) * (my + 1) * s,
            s == v.x * v.x + v.y * v.y,
            0 < s,
    ;
}

/// Of two rescaled coordinates, the first lags behind the second by less
/// than the rounding of one unit allows: `a * my < b * (mx + 1)`.
proof fn lemma_rounding_lag(a: int, b: int, mx: int, my: int, len: int, s: int)
    requires
        0 <= a,
        0 < b,
        0 <= mx,
        0 <= my,
        0 < s,
        (a * a) * (len * len) < (mx + 1) * (mx + 1) * s,
        my * my * s <= (b * b) * (len * len),
    ensures
        a * my < b * (mx + 1),
{
    let p = a * my;
    let q = b * (mx + 1);
    let mid = (a * a) * ((b * b) * (len * len));
    assert(0 <= p && 0 <= q) by (nonlinear_arith)
        requires
            p == a * my,
            q == b * (mx + 1),
            0 <= a,
            0 < b,
            0 <= mx,
            0 <= my,
    ;
    assert(p * p * s <= mid) by (nonlinear_arith)
        requires
            p == a * my,
            mid == (a * a) * ((b * b) * (len * len)),
            my * my * s <= (b * b) * (len * len),
    ;
    assert(mid < q * q * s) by (nonlinear_arith)
        requires
            q == b * (mx + 1),
            mid == (a * a) * ((b * b) * (len * len)),
            (a * a) * (len * len) < (mx + 1) * (mx + 1) * s,
            0 < b,
    ;
    if p >= q {
        lemma_square_monotone(q, p);
        assert(q * q * s <= p * p * s) by (nonlinear_arith)
            requires
                q * q <= p * p,
                0 < s,
        ;
    }
}

/// Rescaling keeps the direction as far as the lattice allows: each
/// coordinate keeps its sign, and the rescaled vector lies less than one
/// unit off the line along the vector it was made from.
pub proof fn lemma_with_length_direction(v: SpecVector, len: int)
    requires
        0 <= len,
        !v.is_zero(),
    ensures
        v.x >= 0 ==> v.with_length(len).x >= 0,
        v.x <= 0 ==> v.with_length(len).x <= 0,
        v.y >= 0 ==> v.with_length(len).y >= 0,
        v.y <= 0 ==> v.with_length(len).y <= 0,
        (v.x * v.with_length(len).y - v.y * v.with_length(len).x) * (v.x * v.with_length(len).y
            - v.y * v.with_length(len).x) < v.norm_sq(),
{
    let s = v.norm_sq();
    let r = v.with_length(len);
    let a = vstd::math::abs(v.x) as int;
    let b = vstd::math::abs(v.y) as int;
    let mx = scaled_magnitude(v.x, len, s);
    let my = scaled_magnitude(v.y, len, s);
    lemma_norm_sq_positive(v);
    lemma_scaled_magnitude(v.x, len, s);
    lemma_scaled_magnitude(v.y, len, s);
    assert(a * a == v.x * v.x) by (nonlinear_arith)
        requires
            a == v.x || a == -v.x,
    ;
    assert(b * b == v.y * v.y) by (nonlinear_arith)
        requires
            b == v.y || b == -v.y,
    ;
    if a == 0 {
        assert(mx == 0) by (nonlinear_arith)
            requires
                mx * mx * s <= (a * a) * (len * len),
                a == 0,
                0 < s,
                0 <= mx,
        ;
    }
    if b == 0 {
        assert(my == 0) by (nonlinear_arith)
            requires
                my * my * s <= (b * b) * (len * len),
                b == 0,
                0 < s,
                0 <= my,
        ;
    }
    let lag = a * my - b * mx;
    let cross = v.x * r.y - v.y * r.x;
    assert(cross == lag || cross == -lag) by (nonlinear_arith)
        requires
            cross == v.x * r.y - v.y * r.x,
            lag == a * my - b * mx,
            (v.x >= 0 && a == v.x && r.x == mx) || (v.x < 0 && a == -v.x && r.x == -mx),
            (v.y >= 0 && b == v.y && r.y == my) || (v.y < 0 && b == -v.y && r.y == -my),
    ;
    if b > 0 {
        lemma_rounding_lag(a, b, mx, my, len, s);
    }
    if a > 0 {
        lemma_rounding_lag(b, a, my, mx, len, s);
    }
    assert(-a < lag < b || lag == 0) by (nonlinear_arith)
        requires
            lag == a * my - b * mx,
            b > 0 ==> a * my < b * (mx + 1),
            a > 0 ==> b * mx < a * (my + 1),
            b == 0 ==> my == 0,
            a == 0 ==> mx == 0,
            0 <= a,
            0 <= b,
    ;
    assert(cross * cross < s) by (nonlinear_arith)
        requires
            cross == lag || cross == -lag,
            -a < lag < b || lag == 0,
            0 <= a,
            0 <= b,
            s == a * a + b * b,
            0 < s,
    ;
}

/// A vector other than zero has a positive squared length, which holds the
/// square of each coordinate.
pub proof fn lemma_norm_sq_positive(v: SpecVector)
    ensures
        v.x * v.x <= v.norm_sq(),
        v.y * v.y <= v.norm_sq(),
        0 <= v.norm_sq(),
        v.norm_sq() == 0 <==> v.is_zero(),
{
    assert(v.x * v.x >= 0 && (v.x * v.x == 0 <==> v.x == 0)) by (nonlinear_arith);
    assert(v.y * v.y >= 0 && (v.y * v.y == 0 <==> v.y == 0)) by (nonlinear_arith);
}

/// A stored lattice vector: a position, a velocity or a force.
#[derive(Clone, Copy, Debug, PartialEq, Eq, Structural)]
pub struct Vector {
    pub x: i32,
    pub y: i32,
}

/// The sum or difference of two stored vectors, one bit wider than they are.
#[derive(Clone, Copy, Debug, PartialEq, Eq, Structural)]
pub struct Offset {
    pub x: i64,
    pub y: i64,
}

/// The largest magnitude of a coordinate of an [`Offset`] that can be rescaled.
pub const REACH: i64 = 0x1_0000_0000;

impl View for Vector {
    type V = SpecVector;

    open spec fn view(&self) -> SpecVector {
        SpecVector { x: self.x as int, y: self.y as int }
    }
}

impl View for Offset {
    type V = SpecVector;

    open spec fn view(&self) -> SpecVector {
        SpecVector { x: self.x as int, y: self.y as int }
    }
}

/// The magnitude of `c` as an unsigned number.
fn magnitude(c: i64) -> (r: u128)
    requires
        -REACH <= c <= REACH,
    ensures
        r == vstd::math::abs(c as int),
        r * r == c * c,
        r <= REACH,
{
    assert(c * c == (-c) * (-c)) by (nonlinear_arith);
    if c < 0 {
        (-c) as u128
    } else {
        c as u128
    }
}

/// One coordinate of a vector of squared length `s` that is brought to length `len`.
fn rescale_coordinate(c: i64, len: i32, s: u128) -> (r: i32)
    requires
        -REACH <= c <= REACH,
        0 <= len,
        0 < s,
        c * c <= s,
    ensures
        r == scaled_coordinate(c as int, len as int, s as int),
        -len <= r <= len,
{
    let a: u128 = magnitude(c);
    let l: u128 = len as u128;
    assert(a * a <= 0x1_0000_0000_0000_0000) by (nonlinear_arith)
        requires
            0 <= a <= 0x1_0000_0000,
    ;
    assert(l * l <= 0x4000_0000_0000_0000) by (nonlinear_arith)
        requires
            0 <= l <= 0x8000_0000,
    ;
    assert((a * a) * (l * l) <= 0x4000_0000_0000_0000_0000_0000_0000_0000) by (nonlinear_arith)
        requires
            0 <= a * a <= 0x1_0000_0000_0000_0000,
            0 <= l * l <= 0x4000_0000_0000_0000,
    ;
    let m: u128 = isqrt(((a * a) * (l * l)) / s);
    proof {
        lemma_scaled_magnitude_le_len(c as int, len as int, s as int);
    }
    if c < 0 {
        -(m as i32)
    } else {
        m as i32
    }
}

impl Vector {
    pub fn new(x: i32, y: i32) -> (r: Vector)
        ensures
            r.x == x,
            r.y == y,
    {
        Vector { x, y }
    }

    /// The vector without length or direction.
    pub fn zero() -> (r: Vector)
        ensures
            r@ == SpecVector::zero(),
    {
        Vector { x: 0, y: 0 }
    }

    pub fn is_zero(&self) -> (r: bool)
        ensures
            r == self@.is_zero(),
    {
        self.x == 0 && self.y == 0
    }

    /// The sum of two stored vectors.
    pub fn plus(&self, other: &Vector) -> (r: Offset)
        ensures
            r@ == self@.plus(other@),
            r.in_reach(),
    {
        Offset { x: self.x as i64 + other.x as i64, y: self.y as i64 + other.y as i64 }
    }

    /// The difference of two stored vectors.
    pub fn minus(&self, other: &Vector) -> (r: Offset)
        ensures
            r@ == self@.minus(other@),
            r.in_reach(),
    {
        Offset { x: self.x as i64 - other.x as i64, y: self.y as i64 - other.y as i64 }
    }
}

impl Offset {
    /// Every coordinate is within [`REACH`] of zero, as the sum or the
    /// difference of two stored vectors is.
    pub open spec fn in_reach(&self) -> bool {
        -REACH <= self.x <= REACH && -REACH <= self.y <= REACH
    }

    pub fn is_zero(&self) -> (r: bool)
        ensures
            r == self@.is_zero(),
    {
        self.x == 0 && self.y == 0
    }

    /// The same vector as a stored one, where its coordinates fit.
    pub fn narrow(&self) -> (r: Option<Vector>)
        ensures
            r is Some <==> self@.storable(),
            r is Some ==> r->Some_0@ == self@,
    {
        if self.x < i32::MIN as i64 || self.x > i32::MAX as i64 || self.y < i32::MIN as i64
            || self.y > i32::MAX as i64 {
            None
        } else {
            Some(Vector { x: self.x as i32, y: self.y as i32 })
        }
    }

    /// The square of the Euclidean length.
    pub fn norm_sq(&self) -> (r: u128)
        requires
            self.in_reach(),
        ensures
            r == self@.norm_sq(),
    {
        let ax: u128 = magnitude(self.x);
        let ay: u128 = magnitude(self.y);
        assert(ax * ax <= 0x1_0000_0000_0000_0000) by (nonlinear_arith)
            requires
                0 <= ax <= 0x1_0000_0000,
        ;
        assert(ay * ay <= 0x1_0000_0000_0000_0000) by (nonlinear_arith)
            requires
                0 <= ay <= 0x1_0000_0000,
        ;
        ax * ax + ay * ay
    }

    /// The vector along `self` of length `len`, each coordinate rounded toward zero.
    pub fn with_length(&self, len: i32) -> (r: Vector)
        requires
            self.in_reach(),
            0 <= len,
        ensures
            r@ == self@.with_length(len as int),
    {
        if self.is_zero() {
            Vector::zero()
        } else {
            let s: u128 = self.norm_sq();
            proof {
                lemma_norm_sq_positive(self@);
            }
            Vector { x: rescale_coordinate(self.x, len, s), y: rescale_coordinate(self.y, len, s) }
        }
    }

    /// `self` where it is no longer than `max`, else the vector along `self` of length `max`.
    pub fn clamp_length(&self, max: i32) -> (r: Vector)
        requires
            self.in_reach(),
            0 <= max,
        ensures
            r@ == self@.clamped(max as int),
    {
        let s: u128 = self.norm_sq();
        let m: u128 = max as u128;
        assert(m * m <= 0x4000_0000_0000_0000) by (nonlinear_arith)
            requires
                0 <= m <= 0x8000_0000,
        ;
        if s <= m * m {
            proof {
                lemma_norm_sq_positive(self@);
                if self.x > max || self.x < -max {
                    assert(self.x * self.x > max * max) by (nonlinear_arith)
                        requires
                            self.x > max || self.x < -max,
                            0 <= max,
                    ;
                }
                if self.y > max || self.y < -max {
                    assert(self.y * self.y > max * max) by (nonlinear_arith)
                        requires
                            self.y > max || self.y < -max,
                            0 <= max,
                    ;
                }
            }
            Vector { x: self.x as i32, y: self.y as i32 }
        } else {
            self.with_length(max)
        }
    }
}

} // verus!
