//! Integer vectors in the plane, and the one rounding operation of the
//! simulation: giving a vector a new length.

use vstd::prelude::*;
use crate::fixed::{
    ceil_sqrt, ceil_sqrt_u128, div_toward_zero, lemma_ceil_sqrt_exists, lemma_square_monotonic,
    lemma_square_strictly_monotonic,
};

verus! {

/// A vector in the plane with fixed-point components.
#[derive(Clone, Copy, Debug, PartialEq, Eq, Structural)]
pub struct Vec2 {
    pub x: i32,
    pub y: i32,
}

/// A vector of mathematical integers: what a [`Vec2`] stands for, and the
/// intermediate values of a computation, which need not fit a `Vec2`.
pub struct Wide {
    pub x: int,
    pub y: int,
}

impl View for Vec2 {
    type V = Wide;

    open spec fn view(&self) -> Wide {
        Wide { x: self.x as int, y: self.y as int }
    }
}

/// Largest absolute value of a component that [`rescale`] accepts: with it,
/// the squared length of a vector, scaled up by the precision, fits 128
/// bits.
pub const WIDE_LIMIT: i64 = 0x8000_0000_0000;

/// Largest length that [`rescale`] can give a vector: with it, a component
/// times the length, scaled up by the precision, fits 128 bits.
pub const LENGTH_LIMIT: i64 = 0x1_0000_0000;

/// The factor by which a length is scaled up before its square root is
/// rounded, so that short vectors keep their direction too.
pub const PRECISION: i64 = 0x1_0000;

/// The absolute value of `a`.
pub open spec fn abs(a: int) -> int {
    if a >= 0 {
        a
    } else {
        -a
    }
}

/// The squared length of the vector `(x, y)`.
pub open spec fn sq_len(x: int, y: int) -> int {
    x * x + y * y
}

/// The first component of the vector `(c, other)` after the vector has been
/// given the length `len`: `c * len / |(c, other)|`, rounded toward zero. The
/// length in the divisor is rounded up to the next multiple of
/// `1 / PRECISION`, so that the result is never longer than `len`. The zero
/// vector stays zero.
pub open spec fn rescaled(c: int, other: int, len: int) -> int {
    if c == 0 && other == 0 {
        0
    } else {
        div_toward_zero(
            c * len * PRECISION,
            ceil_sqrt((sq_len(c, other) * (PRECISION * PRECISION)) as nat) as int,
        )
    }
}

impl Wide {
    /// The squared length.
    pub open spec fn sq_len(self) -> int {
        sq_len(self.x, self.y)
    }

    /// The vector given the length `len` (see [`rescaled`]).
    pub open spec fn rescaled(self, len: int) -> Wide {
        Wide { x: rescaled(self.x, self.y, len), y: rescaled(self.y, self.x, len) }
    }

    /// The cross product with `other`: zero exactly if the two vectors lie
    /// on one line.
    pub open spec fn cross(self, other: Wide) -> int {
        self.x * other.y - self.y * other.x
    }

    /// The longer of the two components, as an absolute value.
    pub open spec fn longer_component(self) -> int {
        if abs(self.x) >= abs(self.y) {
            abs(self.x)
        } else {
            abs(self.y)
        }
    }

    /// Neither component has grown or changed its sign on the way from
    /// `before` to `self`.
    pub open spec fn shrunk_from(self, before: Wide) -> bool {
        &&& abs(self.x) <= abs(before.x)
        &&& abs(self.y) <= abs(before.y)
        &&& before.x >= 0 ==> self.x >= 0
        &&& before.x <= 0 ==> self.x <= 0
        &&& before.y >= 0 ==> self.y >= 0
        &&& before.y <= 0 ==> self.y <= 0
    }
}

/// The absolute value of `a`, in a type wide enough for its square.
pub fn magnitude(a: i64) -> (r: u128)
    ensures
        r == abs(a as int),
{
    if a >= 0 {
        a as u128
    } else {
        (-(a as i128)) as u128
    }
}

/// What holds of a vector that was given a new length: no component is longer
/// than the new length or changes its sign, the vector is no longer than the
/// new length, and where the new length is no more than the old one, no
/// component grew.
pub proof fn lemma_rescaled(x: int, y: int, len: int)
    requires
        0 <= len,
    ensures
        abs(rescaled(x, y, len)) <= len,
        x >= 0 ==> rescaled(x, y, len) >= 0,
        x <= 0 ==> rescaled(x, y, len) <= 0,
        sq_len(rescaled(x, y, len), rescaled(y, x, len)) <= len * len,
        len * len <= sq_len(x, y) ==> abs(rescaled(x, y, len)) <= abs(x),
{
    if x == 0 && y == 0 {
        assert(len * len >= 0) by (nonlinear_arith);
    } else {
        let k = PRECISION as int;
        let kk = k * k;
        let n = sq_len(x, y);
        assert(n >= 1 && x * x <= n && y * y <= n && y * y + x * x == n) by (nonlinear_arith)
            requires
                n == x * x + y * y,
                x != 0 || y != 0,
        ;
        assert(kk == 0x1_0000_0000) by (nonlinear_arith)
            requires
                kk == k * k,
                k == 0x1_0000,
        ;
        let nk = n * kk;
        assert(sq_len(y, x) * (PRECISION * PRECISION) == nk);
        lemma_ceil_sqrt_exists(nk as nat);
        let l = ceil_sqrt(nk as nat) as int;
        assert(l >= 1);
        let ax = abs(x);
        let ay = abs(y);
        assert(ax * ax == x * x && ay * ay == y * y) by (nonlinear_arith)
            requires
                ax == x || ax == -x,
                ay == y || ay == -y,
        ;
        // Each component, scaled up, is no longer than the rounded length.
        assert((ax * k) * (ax * k) == (ax * ax) * kk && (ay * k) * (ay * k) == (ay * ay) * kk)
            by (nonlinear_arith)
            requires
                kk == k * k,
        ;
        if ax * k > l {
            lemma_square_strictly_monotonic(l, ax * k);
        }
        if ay * k > l {
            lemma_square_strictly_monotonic(l, ay * k);
        }
        let px = ax * len * k;
        let py = ay * len * k;
        let qx = px / l;
        let qy = py / l;
        assert(px == x * len * k || px == -(x * len * k)) by (nonlinear_arith)
            requires
                px == ax * len * k,
                ax == x || ax == -x,
        ;
        assert(py == y * len * k || py == -(y * len * k)) by (nonlinear_arith)
            requires
                py == ay * len * k,
                ay == y || ay == -y,
        ;
        assert(x >= 0 ==> x * len * k >= 0) by (nonlinear_arith)
            requires
                0 <= len,
                0 < k,
        ;
        assert(x <= 0 ==> x * len * k <= 0) by (nonlinear_arith)
            requires
                0 <= len,
                0 < k,
        ;
        assert(y >= 0 ==> y * len * k >= 0) by (nonlinear_arith)
            requires
                0 <= len,
                0 < k,
        ;
        assert(y <= 0 ==> y * len * k <= 0) by (nonlinear_arith)
            requires
                0 <= len,
                0 < k,
        ;
        assert(px == (ax * k) * len && py == (ay * k) * len) by (nonlinear_arith)
            requires
                px == ax * len * k,
                py == ay * len * k,
        ;
        assert(0 <= qx && qx * l <= px && qx <= len) by (nonlinear_arith)
            requires
                qx == px / l,
                px == (ax * k) * len,
                l >= 1,
                0 <= ax * k <= l,
                0 <= len,
        ;
        assert(0 <= qy && qy * l <= py && qy <= len) by (nonlinear_arith)
            requires
                qy == py / l,
                py == (ay * k) * len,
                l >= 1,
                0 <= ay * k <= l,
                0 <= len,
        ;
        assert(rescaled(x, y, len) == qx || rescaled(x, y, len) == -qx);
        assert(rescaled(y, x, len) == qy || rescaled(y, x, len) == -qy);
        let rx = rescaled(x, y, len);
        let ry = rescaled(y, x, len);
        assert(rx * rx == qx * qx && ry * ry == qy * qy) by (nonlinear_arith)
            requires
                rx == qx || rx == -qx,
                ry == qy || ry == -qy,
        ;
        lemma_square_monotonic(qx * l, px);
        lemma_square_monotonic(qy * l, py);
        let ll = l * l;
        let mm = len * len;
        let a = qx * qx;
        let b = qy * qy;
        assert((qx * l) * (qx * l) == a * ll) by (nonlinear_arith)
            requires
                a == qx * qx,
                ll == l * l,
        ;
        assert((qy * l) * (qy * l) == b * ll) by (nonlinear_arith)
            requires
                b == qy * qy,
                ll == l * l,
        ;
        assert(px * px == ((ax * ax) * kk) * mm) by (nonlinear_arith)
            requires
                px == ax * len * k,
                mm == len * len,
                kk == k * k,
        ;
        assert(py * py == ((ay * ay) * kk) * mm) by (nonlinear_arith)
            requires
                py == ay * len * k,
                mm == len * len,
                kk == k * k,
        ;
        assert((a + b) * ll == a * ll + b * ll) by (nonlinear_arith);
        assert(((ax * ax) * kk) * mm + ((ay * ay) * kk) * mm == nk * mm) by (nonlinear_arith)
            requires
                ax * ax + ay * ay == n,
                nk == n * kk,
        ;
        assert(nk * mm <= ll * mm) by (nonlinear_arith)
            requires
                nk <= ll,
                0 <= mm,
                mm == len * len,
        ;
        assert(a + b <= mm) by (nonlinear_arith)
            requires
                (a + b) * ll <= mm * ll,
                ll >= 1,
        ;
        if len * len <= n {
            assert((len * k) * (len * k) == mm * kk) by (nonlinear_arith)
                requires
                    mm == len * len,
                    kk == k * k,
            ;
            assert(mm * kk <= n * kk) by (nonlinear_arith)
                requires
                    mm <= n,
                    0 <= kk,
            ;
            if len * k > l {
                lemma_square_strictly_monotonic(l, len * k);
            }
            assert(px == ax * (len * k)) by (nonlinear_arith)
                requires
                    px == ax * len * k,
            ;
            assert(qx <= ax) by (nonlinear_arith)
                requires
                    qx * l <= px,
                    px == ax * (len * k),
                    0 <= len * k <= l,
                    l >= 1,
                    0 <= ax,
                    0 <= qx,
            ;
        }
    }
}

/// A vector that is given a new length keeps its direction, up to the
/// rounding of its components: the cross product of the two vectors, which
/// is zero for vectors on one line, is less than the longer component of the
/// vector.
pub proof fn lemma_rescaled_keeps_direction(v: Wide, len: int)
    requires
        0 <= len,
    ensures
        abs(v.rescaled(len).cross(v)) <= v.longer_component(),
        v != (Wide { x: 0, y: 0 }) ==> abs(v.rescaled(len).cross(v)) < v.longer_component(),
{
    let x = v.x;
    let y = v.y;
    if x == 0 && y == 0 {
        assert(v.rescaled(len).cross(v) == 0) by (nonlinear_arith)
            requires
                v.x == 0,
                v.y == 0,
                v.rescaled(len).cross(v) == v.rescaled(len).x * v.y - v.rescaled(len).y * v.x,
        ;
    } else {
        let k = PRECISION as int;
        let kk = k * k;
        let n = sq_len(x, y);
        assert(n >= 1) by (nonlinear_arith)
            requires
                n == x * x + y * y,
                x != 0 || y != 0,
        ;
        assert(kk == 0x1_0000_0000) by (nonlinear_arith)
            requires
                kk == k * k,
                k == 0x1_0000,
        ;
        let nk = n * kk;
        assert(sq_len(y, x) * (PRECISION * PRECISION) == nk);
        lemma_ceil_sqrt_exists(nk as nat);
        let l = ceil_sqrt(nk as nat) as int;
        let ax = abs(x);
        let ay = abs(y);
        let m = v.longer_component();
        let p = len * k;
        let qx = (ax * p) / l;
        let qy = (ay * p) / l;
        assert(p >= 0) by (nonlinear_arith)
            requires
                p == len * k,
                len >= 0,
                k >= 0,
        ;
        assert(ax * p == ax * len * k && ay * p == ay * len * k) by (nonlinear_arith)
            requires
                p == len * k,
        ;
        assert(ax * p == x * len * k || ax * p == -(x * len * k)) by (nonlinear_arith)
            requires
                p == len * k,
                ax == x || ax == -x,
        ;
        assert(ay * p == y * len * k || ay * p == -(y * len * k)) by (nonlinear_arith)
            requires
                p == len * k,
                ay == y || ay == -y,
        ;
        assert(x >= 0 ==> x * len * k >= 0) by (nonlinear_arith)
            requires
                0 <= len,
                0 < k,
        ;
        assert(x <= 0 ==> x * len * k <= 0) by (nonlinear_arith)
            requires
                0 <= len,
                0 < k,
        ;
        assert(y >= 0 ==> y * len * k >= 0) by (nonlinear_arith)
            requires
                0 <= len,
                0 < k,
        ;
        assert(y <= 0 ==> y * len * k <= 0) by (nonlinear_arith)
            requires
                0 <= len,
                0 < k,
        ;
        let rx = rescaled(x, y, len);
        let ry = rescaled(y, x, len);
        assert(rx == qx || rx == -qx);
        assert(ry == qy || ry == -qy);
        assert(x >= 0 ==> rx == qx);
        assert(x <= 0 ==> rx == -qx);
        assert(y >= 0 ==> ry == qy);
        assert(y <= 0 ==> ry == -qy);
        // What the two divisions leave over.
        let ex = ax * p - qx * l;
        let ey = ay * p - qy * l;
        assert(0 <= ex < l && 0 <= qx) by (nonlinear_arith)
            requires
                ex == ax * p - qx * l,
                qx == (ax * p) / l,
                l >= 1,
                ax * p >= 0,
        ;
        assert(0 <= ey < l && 0 <= qy) by (nonlinear_arith)
            requires
                ey == ay * p - qy * l,
                qy == (ay * p) / l,
                l >= 1,
                ay * p >= 0,
        ;
        let c = qx * ay - qy * ax;
        assert(c * l == ey * ax - ex * ay) by (nonlinear_arith)
            requires
                c == qx * ay - qy * ax,
                ex == ax * p - qx * l,
                ey == ay * p - qy * l,
        ;
        assert(ey * ax <= (l - 1) * m && ex * ay <= (l - 1) * m && ey * ax >= 0 && ex * ay >= 0)
            by (nonlinear_arith)
            requires
                0 <= ex <= l - 1,
                0 <= ey <= l - 1,
                0 <= ax <= m,
                0 <= ay <= m,
        ;
        assert(-m < c < m) by (nonlinear_arith)
            requires
                -((l - 1) * m) <= c * l <= (l - 1) * m,
                l >= 1,
                m >= 1,
        ;
        let cross = v.rescaled(len).cross(v);
        assert(cross == rx * y - ry * x);
        assert(cross == c || cross == -c) by (nonlinear_arith)
            requires
                cross == rx * y - ry * x,
                c == qx * ay - qy * ax,
                (x >= 0 && rx == qx && ax == x) || (x <= 0 && rx == -qx && ax == -x),
                (y >= 0 && ry == qy && ay == y) || (y <= 0 && ry == -qy && ay == -y),
        ;
    }
}

/// A vector that is given a length of two or more keeps a component: the
/// longer of its components does not round to zero.
pub proof fn lemma_rescaled_keeps_longer_component(x: int, y: int, len: int)
    requires
        2 <= len,
        x != 0,
        abs(y) <= abs(x),
    ensures
        abs(rescaled(x, y, len)) >= 1,
{
    let k = PRECISION as int;
    let kk = k * k;
    let n = sq_len(x, y);
    let ax = abs(x);
    let ay = abs(y);
    assert(kk == 0x1_0000_0000) by (nonlinear_arith)
        requires
            kk == k * k,
            k == 0x1_0000,
    ;
    assert(ax * ax == x * x && ay * ay == y * y) by (nonlinear_arith)
        requires
            ax == x || ax == -x,
            ay == y || ay == -y,
    ;
    lemma_square_monotonic(ay, ax);
    let nk = n * kk;
    assert(nk <= 2 * (ax * ax) * kk && nk >= 1) by (nonlinear_arith)
        requires
            nk == n * kk,
            n == ax * ax + ay * ay,
            ay * ay <= ax * ax,
            ax >= 1,
            kk >= 1,
    ;
    lemma_ceil_sqrt_exists(nk as nat);
    let l = ceil_sqrt(nk as nat) as int;
    let bound = 2 * ax * k;
    assert(bound * bound == 4 * (ax * ax) * kk) by (nonlinear_arith)
        requires
            bound == 2 * ax * k,
            kk == k * k,
    ;
    assert(4 * (ax * ax) * kk >= 2 * (ax * ax) * kk) by (nonlinear_arith)
        requires
            kk >= 0,
    ;
    if l - 1 >= bound {
        lemma_square_monotonic(bound, l - 1);
    }
    let p = ax * len * k;
    assert(p >= bound) by (nonlinear_arith)
        requires
            p == ax * len * k,
            bound == 2 * ax * k,
            len >= 2,
            ax >= 0,
            k >= 0,
    ;
    assert(p / l >= 1) by (nonlinear_arith)
        requires
            p >= l,
            l >= 1,
    ;
    assert(p == x * len * k || p == -(x * len * k)) by (nonlinear_arith)
        requires
            p == ax * len * k,
            ax == x || ax == -x,
    ;
    assert(x >= 0 ==> x * len * k >= 0) by (nonlinear_arith)
        requires
            0 <= len,
            0 < k,
    ;
    assert(x <= 0 ==> x * len * k <= 0) by (nonlinear_arith)
        requires
            0 <= len,
            0 < k,
    ;
}

/// Gives the vector `(x, y)` the length `len`, components rounded toward
/// zero.
pub fn rescale(x: i64, y: i64, len: i64) -> (r: (i64, i64))
    requires
        -WIDE_LIMIT <= x <= WIDE_LIMIT,
        -WIDE_LIMIT <= y <= WIDE_LIMIT,
        0 <= len <= LENGTH_LIMIT,
    ensures
        r.0 == rescaled(x as int, y as int, len as int),
        r.1 == rescaled(y as int, x as int, len as int),
        -len <= r.0 <= len,
        -len <= r.1 <= len,
{
    if x == 0 && y == 0 {
        return (0, 0);
    }
    let ax: u128 = magnitude(x);
    let ay: u128 = magnitude(y);
    let k: u128 = 0x1_0000;
    proof {
        lemma_square_monotonic(ax as int, WIDE_LIMIT as int);
        lemma_square_monotonic(ay as int, WIDE_LIMIT as int);
        assert(WIDE_LIMIT * WIDE_LIMIT == 0x4000_0000_0000_0000_0000_0000int) by (nonlinear_arith);
        assert(ax * ax == x * x && ay * ay == y * y) by (nonlinear_arith)
            requires
                ax == x || ax == -x,
                ay == y || ay == -y,
        ;
        assert(PRECISION * PRECISION == 0x1_0000_0000) by (nonlinear_arith);
    }
    let n: u128 = ax * ax + ay * ay;
    proof {
        assert(n >= 1) by (nonlinear_arith)
            requires
                n == ax * ax + ay * ay,
                ax != 0 || ay != 0,
        ;
        assert(n * 0x1_0000_0000 == sq_len(x as int, y as int) * (PRECISION * PRECISION));
        assert(n * 0x1_0000_0000 == sq_len(y as int, x as int) * (PRECISION * PRECISION));
    }
    let l: u128 = ceil_sqrt_u128(n * 0x1_0000_0000);
    proof {
        lemma_ceil_sqrt_exists((n * 0x1_0000_0000) as nat);
        assert(ax * len <= WIDE_LIMIT * LENGTH_LIMIT && ay * len <= WIDE_LIMIT * LENGTH_LIMIT)
            by (nonlinear_arith)
            requires
                0 <= ax <= WIDE_LIMIT,
                0 <= ay <= WIDE_LIMIT,
                0 <= len <= LENGTH_LIMIT,
        ;
        assert(WIDE_LIMIT * LENGTH_LIMIT == 0x8000_0000_0000_0000_0000int) by (nonlinear_arith);
        assert(ax * len * k == x * len * PRECISION || ax * len * k == -(x * len * PRECISION))
            by (nonlinear_arith)
            requires
                ax == x || ax == -x,
                k == PRECISION,
        ;
        assert(ay * len * k == y * len * PRECISION || ay * len * k == -(y * len * PRECISION))
            by (nonlinear_arith)
            requires
                ay == y || ay == -y,
                k == PRECISION,
        ;
        assert(x >= 0 ==> x * len * PRECISION >= 0) by (nonlinear_arith)
            requires
                0 <= len,
                PRECISION > 0,
        ;
        assert(x < 0 ==> x * len * PRECISION <= 0) by (nonlinear_arith)
            requires
                0 <= len,
                PRECISION > 0,
        ;
        assert(y >= 0 ==> y * len * PRECISION >= 0) by (nonlinear_arith)
            requires
                0 <= len,
                PRECISION > 0,
        ;
        assert(y < 0 ==> y * len * PRECISION <= 0) by (nonlinear_arith)
            requires
                0 <= len,
                PRECISION > 0,
        ;
        lemma_rescaled(x as int, y as int, len as int);
        lemma_rescaled(y as int, x as int, len as int);
    }
    let qx: u128 = (ax * (len as u128) * k) / l;
    let qy: u128 = (ay * (len as u128) * k) / l;
    let rx: i64 = if x >= 0 {
        qx as i64
    } else {
        -(qx as i64)
    };
    let ry: i64 = if y >= 0 {
        qy as i64
    } else {
        -(qy as i64)
    };
    (rx, ry)
}

impl Vec2 {
    /// The zero vector.
    pub fn zero() -> (r: Vec2)
        ensures
            r == (Vec2 { x: 0, y: 0 }),
    {
        Vec2 { x: 0, y: 0 }
    }

    /// The squared length, as a mathematical integer.
    pub open spec fn spec_length_squared(self) -> int {
        sq_len(self.x as int, self.y as int)
    }

    /// The dot product, as a mathematical integer.
    pub open spec fn spec_dot(self, other: Vec2) -> int {
        self.x * other.x + self.y * other.y
    }

    /// The squared length.
    pub fn length_squared(self) -> (r: u64)
        ensures
            r == self.spec_length_squared(),
    {
        let ax: u64 = magnitude(self.x as i64) as u64;
        let ay: u64 = magnitude(self.y as i64) as u64;
        proof {
            lemma_square_monotonic(ax as int, 0x8000_0000);
            lemma_square_monotonic(ay as int, 0x8000_0000);
            assert(ax * ax == self.x * self.x && ay * ay == self.y * self.y) by (nonlinear_arith)
                requires
                    ax == self.x || ax == -self.x,
                    ay == self.y || ay == -self.y,
            ;
        }
        ax * ax + ay * ay
    }

    /// The dot product with `other`.
    pub fn dot(self, other: Vec2) -> (r: i128)
        ensures
            r == self.spec_dot(other),
    {
        let ax: i128 = self.x as i128;
        let ay: i128 = self.y as i128;
        let bx: i128 = other.x as i128;
        let by: i128 = other.y as i128;
        proof {
            assert(-0x4000_0000_0000_0000 <= ax * bx <= 0x4000_0000_0000_0000) by (nonlinear_arith)
                requires
                    -0x8000_0000 <= ax <= 0x8000_0000,
                    -0x8000_0000 <= bx <= 0x8000_0000,
            ;
            assert(-0x4000_0000_0000_0000 <= ay * by <= 0x4000_0000_0000_0000) by (nonlinear_arith)
                requires
                    -0x8000_0000 <= ay <= 0x8000_0000,
                    -0x8000_0000 <= by <= 0x8000_0000,
            ;
        }
        ax * bx + ay * by
    }
}

} // verus!
