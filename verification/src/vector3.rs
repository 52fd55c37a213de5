//! Three-component vectors over the fixed-point scalar.
//!
//! Each operation's contract states the exact raw integers of the result.
//! Geometric helpers (`dot`, `cross`, `length`, `reflect`, `refract`) take
//! bounded inputs so that no intermediate product can leave the machine
//! range; the bounds are stated by `v_geom` (scene-sized values) and
//! `v_unitish` (direction-sized values).

use vstd::prelude::*;

verus! {

use crate::fx::Fx;
use crate::fx::SCALE;
use crate::fx::fx_mul;
use crate::fx::fx_div;
use crate::fx::fx_sqrt;
use crate::fx::fdiv;
use crate::fx::fits_i64;
use crate::fx::lemma_fdiv_bound;
use crate::fx::lemma_mul_bound;
use crate::fx::lemma_fdiv_bracket;

/// Largest raw magnitude allowed for scene geometry fed to the intersection
/// routines; keeps every wide intermediate within 128 bits.
pub const GEOM_MAX: i64 = 0x4000_0000;

pub open spec fn fx_geom(x: int) -> bool {
    -(GEOM_MAX as int) <= x <= GEOM_MAX as int
}

/// Raw magnitude bound for unit-length-like vectors (normals, basis vectors).
pub open spec fn fx_unitish(x: int) -> bool {
    -3 * (SCALE as int) <= x <= 3 * (SCALE as int)
}

#[derive(Clone, Copy, PartialEq, Eq, Structural, Debug)]
pub struct Vector3 {
    pub x: Fx,
    pub y: Fx,
    pub z: Fx,
}

pub open spec fn v_geom(v: Vector3) -> bool {
    fx_geom(v.x.raw as int) && fx_geom(v.y.raw as int) && fx_geom(v.z.raw as int)
}

pub open spec fn v_unitish(v: Vector3) -> bool {
    fx_unitish(v.x.raw as int) && fx_unitish(v.y.raw as int) && fx_unitish(v.z.raw as int)
}

/// The raw value of a fixed-point dot product, over raw components.
pub open spec fn dot3_spec(ax: int, ay: int, az: int, bx: int, by: int, bz: int) -> int {
    fx_mul(ax, bx) + fx_mul(ay, by) + fx_mul(az, bz)
}

/// The raw value of the fixed-point dot product.
pub open spec fn dot_spec(a: Vector3, b: Vector3) -> int {
    dot3_spec(
        a.x.raw as int,
        a.y.raw as int,
        a.z.raw as int,
        b.x.raw as int,
        b.y.raw as int,
        b.z.raw as int,
    )
}

/// The raw value of the fixed-point squared length: the dot of a vector
/// with itself.
pub open spec fn length_squared_spec(v: Vector3) -> int {
    dot_spec(v, v)
}

/// The raw value of the fixed-point length.
pub open spec fn length_spec(v: Vector3) -> int {
    fx_sqrt(length_squared_spec(v))
}

/// Each fixed-point square is non-negative, so squared lengths are too.
pub proof fn lemma_square_nonneg(a: int)
    ensures
        fx_mul(a, a) >= 0,
{
    assert(a * a >= 0) by (nonlinear_arith);
    lemma_fdiv_bracket(a * a, SCALE as int);
}

/// A bound on both factors bounds the fixed-point product (coarsely).
pub proof fn lemma_fx_mul_bound(a: int, b: int, ba: int, bb: int)
    requires
        -ba <= a <= ba,
        -bb <= b <= bb,
        0 <= ba,
        0 <= bb,
    ensures
        -(ba * bb) <= fx_mul(a, b) <= ba * bb,
{
    lemma_mul_bound(a, b, ba, bb);
    assert(ba * bb >= 0) by (nonlinear_arith)
        requires
            0 <= ba,
            0 <= bb,
    ;
    lemma_fdiv_bound(a * b, SCALE as int, ba * bb);
}

/// A bound on the dividend bounds the fixed-point quotient (coarsely).
pub proof fn lemma_fx_div_bound(a: int, b: int, ba: int)
    requires
        -ba <= a <= ba,
        0 <= ba,
        b != 0,
    ensures
        -(ba * (SCALE as int)) <= fx_div(a, b) <= ba * (SCALE as int),
{
    lemma_mul_bound(a, SCALE as int, ba, SCALE as int);
    assert(ba * (SCALE as int) >= 0) by (nonlinear_arith)
        requires
            0 <= ba,
    ;
    if b > 0 {
        lemma_fdiv_bound(a * (SCALE as int), b, ba * (SCALE as int));
    } else {
        lemma_fdiv_bound(-(a * (SCALE as int)), -b, ba * (SCALE as int));
    }
}

/// The dot product of two geometry-bounded vectors fits comfortably in 64 bits.
pub proof fn lemma_dot_fits(a: Vector3, b: Vector3)
    requires
        v_geom(a),
        v_geom(b),
    ensures
        -0x3000_0000_0000_0000 <= dot_spec(a, b) <= 0x3000_0000_0000_0000,
        -0x1000_0000_0000_0000 <= fx_mul(a.x.raw as int, b.x.raw as int) <= 0x1000_0000_0000_0000,
        -0x1000_0000_0000_0000 <= fx_mul(a.y.raw as int, b.y.raw as int) <= 0x1000_0000_0000_0000,
        -0x1000_0000_0000_0000 <= fx_mul(a.z.raw as int, b.z.raw as int) <= 0x1000_0000_0000_0000,
{
    lemma_fx_mul_bound(a.x.raw as int, b.x.raw as int, GEOM_MAX as int, GEOM_MAX as int);
    lemma_fx_mul_bound(a.y.raw as int, b.y.raw as int, GEOM_MAX as int, GEOM_MAX as int);
    lemma_fx_mul_bound(a.z.raw as int, b.z.raw as int, GEOM_MAX as int, GEOM_MAX as int);
}

impl Vector3 {
    pub fn new(x: Fx, y: Fx, z: Fx) -> (r: Vector3)
        ensures
            r.x == x,
            r.y == y,
            r.z == z,
    {
        Vector3 { x, y, z }
    }

    pub fn from(v: &Vector3) -> (r: Vector3)
        ensures
            r == *v,
    {
        *v
    }

    pub fn x(&self) -> (r: Fx)
        ensures
            r == self.x,
    {
        self.x
    }

    pub fn y(&self) -> (r: Fx)
        ensures
            r == self.y,
    {
        self.y
    }

    pub fn z(&self) -> (r: Fx)
        ensures
            r == self.z,
    {
        self.z
    }

    pub fn add(self, o: Vector3) -> (r: Vector3)
        requires
            fits_i64(self.x.raw + o.x.raw),
            fits_i64(self.y.raw + o.y.raw),
            fits_i64(self.z.raw + o.z.raw),
        ensures
            r.x.raw == self.x.raw + o.x.raw,
            r.y.raw == self.y.raw + o.y.raw,
            r.z.raw == self.z.raw + o.z.raw,
    {
        Vector3 { x: self.x.add(o.x), y: self.y.add(o.y), z: self.z.add(o.z) }
    }

    pub fn sub(self, o: Vector3) -> (r: Vector3)
        requires
            fits_i64(self.x.raw - o.x.raw),
            fits_i64(self.y.raw - o.y.raw),
            fits_i64(self.z.raw - o.z.raw),
        ensures
            r.x.raw == self.x.raw - o.x.raw,
            r.y.raw == self.y.raw - o.y.raw,
            r.z.raw == self.z.raw - o.z.raw,
    {
        Vector3 { x: self.x.sub(o.x), y: self.y.sub(o.y), z: self.z.sub(o.z) }
    }

    pub fn neg(self) -> (r: Vector3)
        requires
            self.x.raw > i64::MIN,
            self.y.raw > i64::MIN,
            self.z.raw > i64::MIN,
        ensures
            r.x.raw == -self.x.raw,
            r.y.raw == -self.y.raw,
            r.z.raw == -self.z.raw,
    {
        Vector3 { x: self.x.neg(), y: self.y.neg(), z: self.z.neg() }
    }

    /// Scale every component by the scalar `s`.
    pub fn mul(self, s: Fx) -> (r: Vector3)
        requires
            fits_i64(fx_mul(self.x.raw as int, s.raw as int)),
            fits_i64(fx_mul(self.y.raw as int, s.raw as int)),
            fits_i64(fx_mul(self.z.raw as int, s.raw as int)),
        ensures
            r.x.raw == fx_mul(self.x.raw as int, s.raw as int),
            r.y.raw == fx_mul(self.y.raw as int, s.raw as int),
            r.z.raw == fx_mul(self.z.raw as int, s.raw as int),
    {
        Vector3 { x: self.x.mul(s), y: self.y.mul(s), z: self.z.mul(s) }
    }

    /// Divide every component by the non-zero scalar `s`.
    pub fn div(self, s: Fx) -> (r: Vector3)
        requires
            s.raw != 0,
            fits_i64(fx_div(self.x.raw as int, s.raw as int)),
            fits_i64(fx_div(self.y.raw as int, s.raw as int)),
            fits_i64(fx_div(self.z.raw as int, s.raw as int)),
        ensures
            r.x.raw == fx_div(self.x.raw as int, s.raw as int),
            r.y.raw == fx_div(self.y.raw as int, s.raw as int),
            r.z.raw == fx_div(self.z.raw as int, s.raw as int),
    {
        Vector3 { x: self.x.div(s), y: self.y.div(s), z: self.z.div(s) }
    }

    pub fn length_squared(&self) -> (r: Fx)
        requires
            v_geom(*self),
        ensures
            r.raw == length_squared_spec(*self),
            r.raw >= 0,
    {
        Vector3::dot(self, self)
    }

    pub fn length(&self) -> (r: Fx)
        requires
            v_geom(*self),
        ensures
            r.raw == length_spec(*self),
            r.raw >= 0,
    {
        self.length_squared().sqrt()
    }

    pub fn dot(left: &Vector3, right: &Vector3) -> (r: Fx)
        requires
            v_geom(*left),
            v_geom(*right),
        ensures
            r.raw == dot_spec(*left, *right),
            *left == *right ==> r.raw >= 0,
    {
        proof {
            lemma_dot_fits(*left, *right);
            if *left == *right {
                lemma_square_nonneg(left.x.raw as int);
                lemma_square_nonneg(left.y.raw as int);
                lemma_square_nonneg(left.z.raw as int);
            }
        }
        left.x.mul(right.x).add(left.y.mul(right.y)).add(left.z.mul(right.z))
    }

    pub fn cross(left: &Vector3, right: &Vector3) -> (r: Vector3)
        requires
            v_geom(*left),
            v_geom(*right),
        ensures
            r.x.raw == fx_mul(left.y.raw as int, right.z.raw as int) - fx_mul(
                left.z.raw as int,
                right.y.raw as int,
            ),
            r.y.raw == fx_mul(left.z.raw as int, right.x.raw as int) - fx_mul(
                left.x.raw as int,
                right.z.raw as int,
            ),
            r.z.raw == fx_mul(left.x.raw as int, right.y.raw as int) - fx_mul(
                left.y.raw as int,
                right.x.raw as int,
            ),
            r == cross_spec(*left, *right),
    {
        proof {
            lemma_fx_mul_bound(left.y.raw as int, right.z.raw as int, GEOM_MAX as int, GEOM_MAX as int);
            lemma_fx_mul_bound(left.z.raw as int, right.y.raw as int, GEOM_MAX as int, GEOM_MAX as int);
            lemma_fx_mul_bound(left.z.raw as int, right.x.raw as int, GEOM_MAX as int, GEOM_MAX as int);
            lemma_fx_mul_bound(left.x.raw as int, right.z.raw as int, GEOM_MAX as int, GEOM_MAX as int);
            lemma_fx_mul_bound(left.x.raw as int, right.y.raw as int, GEOM_MAX as int, GEOM_MAX as int);
            lemma_fx_mul_bound(left.y.raw as int, right.x.raw as int, GEOM_MAX as int, GEOM_MAX as int);
        }
        Vector3 {
            x: left.y.mul(right.z).sub(left.z.mul(right.y)),
            y: left.z.mul(right.x).sub(left.x.mul(right.z)),
            z: left.x.mul(right.y).sub(left.y.mul(right.x)),
        }
    }

    /// The vector scaled to (approximately) unit length: each component is
    /// divided by the fixed-point length.  The squared length must be at
    /// least one raw step, so the divisor is non-zero.
    pub fn unit_vector(v: &Vector3) -> (r: Vector3)
        requires
            v_geom(*v),
            length_squared_spec(*v) >= 1,
        ensures
            r.x.raw == fx_div(v.x.raw as int, length_spec(*v)),
            r.y.raw == fx_div(v.y.raw as int, length_spec(*v)),
            r.z.raw == fx_div(v.z.raw as int, length_spec(*v)),
    {
        proof {
            crate::fx::lemma_sqrt_floor_props(length_squared_spec(*v) * (SCALE as int));
            assert(length_spec(*v) >= 1) by {
                let n = length_squared_spec(*v) * (SCALE as int);
                let s = crate::fx::sqrt_floor(n);
                assert(length_squared_spec(*v) * (SCALE as int) >= SCALE) by (nonlinear_arith)
                    requires
                        length_squared_spec(*v) >= 1,
                ;
                assert(s >= 1) by (nonlinear_arith)
                    requires
                        s >= 0,
                        n < (s + 1) * (s + 1),
                        n >= 10000,
                ;
            }
            lemma_fx_div_bound(v.x.raw as int, length_spec(*v), GEOM_MAX as int);
            lemma_fx_div_bound(v.y.raw as int, length_spec(*v), GEOM_MAX as int);
            lemma_fx_div_bound(v.z.raw as int, length_spec(*v), GEOM_MAX as int);
        }
        let len = v.length();
        v.div(len)
    }

    /// Whether every component is within the geometry working range.
    pub fn is_geom(&self) -> (r: bool)
        ensures
            r == v_geom(*self),
    {
        -GEOM_MAX <= self.x.raw && self.x.raw <= GEOM_MAX && -GEOM_MAX <= self.y.raw
            && self.y.raw <= GEOM_MAX && -GEOM_MAX <= self.z.raw && self.z.raw <= GEOM_MAX
    }

    /// Whether every component is within the unit-vector working bound.
    pub fn is_unitish(&self) -> (r: bool)
        ensures
            r == v_unitish(*self),
    {
        -3 * SCALE <= self.x.raw && self.x.raw <= 3 * SCALE && -3 * SCALE <= self.y.raw
            && self.y.raw <= 3 * SCALE && -3 * SCALE <= self.z.raw && self.z.raw <= 3 * SCALE
    }

    /// True when every component is exactly zero.  The customary guard
    /// threshold of a millionth of a percent is smaller than one
    /// fixed-point step, so only the zero vector is "near zero" at this
    /// resolution.
    pub fn near_zero(&self) -> (r: bool)
        ensures
            r == (self.x.raw == 0 && self.y.raw == 0 && self.z.raw == 0),
    {
        self.x.raw == 0 && self.y.raw == 0 && self.z.raw == 0
    }

    /// Mirror `v` about the plane with normal `n`: `v - 2 (v . n) n`.
    pub fn reflect(v: &Vector3, n: &Vector3) -> (r: Vector3)
        requires
            v_unitish(*v),
            v_unitish(*n),
        ensures
            r.x.raw == v.x.raw - fx_mul(n.x.raw as int, 2 * dot_spec(*v, *n)),
            r.y.raw == v.y.raw - fx_mul(n.y.raw as int, 2 * dot_spec(*v, *n)),
            r.z.raw == v.z.raw - fx_mul(n.z.raw as int, 2 * dot_spec(*v, *n)),
            r == reflect_spec(*v, *n),
            -200 * (SCALE as int) <= r.x.raw <= 200 * (SCALE as int),
            -200 * (SCALE as int) <= r.y.raw <= 200 * (SCALE as int),
            -200 * (SCALE as int) <= r.z.raw <= 200 * (SCALE as int),
    {
        proof {
            lemma_dot_unitish(*v, *n);
            let d2 = 2 * dot_spec(*v, *n);
            let s = SCALE as int;
            lemma_fx_mul_tight(n.x.raw as int, d2, 3 * s, 56 * s);
            lemma_fx_mul_tight(n.y.raw as int, d2, 3 * s, 56 * s);
            lemma_fx_mul_tight(n.z.raw as int, d2, 3 * s, 56 * s);
            crate::fx::lemma_fdiv_exact(168 * s, s);
            assert(3 * s * (56 * s) == 168 * s * s) by (nonlinear_arith);
        }
        let d = Vector3::dot(v, n);
        let d2 = d.add(d);
        v.sub(n.mul(d2))
    }
}

/// A tight bound on a fixed-point product from bounds on its factors.
pub proof fn lemma_fx_mul_tight(a: int, b: int, ba: int, bb: int)
    requires
        -ba <= a <= ba,
        -bb <= b <= bb,
        0 <= ba,
        0 <= bb,
    ensures
        -(fdiv(ba * bb, SCALE as int) + 1) <= fx_mul(a, b) <= fdiv(ba * bb, SCALE as int),
{
    let m = ba * bb;
    lemma_mul_bound(a, b, ba, bb);
    assert(ba * bb >= 0) by (nonlinear_arith)
        requires
            0 <= ba,
            0 <= bb,
    ;
    crate::fx::lemma_fdiv_mono(a * b, m, SCALE as int);
    crate::fx::lemma_fdiv_mono(-m, a * b, SCALE as int);
    if m == 0 {
    } else {
        crate::fx::lemma_fdiv_neg(m, SCALE as int);
        crate::fx::lemma_fdiv_mono(m - 1, m, SCALE as int);
    }
}

/// The dot product of two unit-bounded vectors is itself small.
pub proof fn lemma_dot_unitish(a: Vector3, b: Vector3)
    requires
        v_unitish(a),
        v_unitish(b),
    ensures
        -(27 * (SCALE as int) + 3) <= dot_spec(a, b) <= 27 * (SCALE as int),
{
    lemma_fx_mul_tight(a.x.raw as int, b.x.raw as int, 3 * (SCALE as int), 3 * (SCALE as int));
    lemma_fx_mul_tight(a.y.raw as int, b.y.raw as int, 3 * (SCALE as int), 3 * (SCALE as int));
    lemma_fx_mul_tight(a.z.raw as int, b.z.raw as int, 3 * (SCALE as int), 3 * (SCALE as int));
    assert(fdiv(3 * (SCALE as int) * (3 * (SCALE as int)), SCALE as int) == 9 * (SCALE as int)) by {
        crate::fx::lemma_fdiv_exact(9 * (SCALE as int), SCALE as int);
        assert(3 * (SCALE as int) * (3 * (SCALE as int)) == 9 * (SCALE as int) * (SCALE as int))
            by (nonlinear_arith);
    }
}

/// The negated vector, componentwise, over raw values.
pub open spec fn neg_spec(v: Vector3) -> Vector3 {
    Vector3 {
        x: Fx { raw: (-v.x.raw) as i64 },
        y: Fx { raw: (-v.y.raw) as i64 },
        z: Fx { raw: (-v.z.raw) as i64 },
    }
}

/// The dot with a flipped unit-bounded vector never exceeds the negated
/// dot: flooring can only lose, never gain.
pub proof fn lemma_dot_flip(d: Vector3, n: Vector3)
    requires
        v_unitish(n),
    ensures
        dot_spec(d, neg_spec(n)) <= -dot_spec(d, n),
{
    let s = SCALE as int;
    assert((d.x.raw as int) * (-n.x.raw) == -((d.x.raw as int) * (n.x.raw as int)))
        by (nonlinear_arith);
    assert((d.y.raw as int) * (-n.y.raw) == -((d.y.raw as int) * (n.y.raw as int)))
        by (nonlinear_arith);
    assert((d.z.raw as int) * (-n.z.raw) == -((d.z.raw as int) * (n.z.raw as int)))
        by (nonlinear_arith);
    crate::fx::lemma_fdiv_antisym((d.x.raw as int) * (n.x.raw as int), s);
    crate::fx::lemma_fdiv_antisym((d.y.raw as int) * (n.y.raw as int), s);
    crate::fx::lemma_fdiv_antisym((d.z.raw as int) * (n.z.raw as int), s);
}

/// The cross product, componentwise, over raw values.
pub open spec fn cross_spec(a: Vector3, b: Vector3) -> Vector3 {
    Vector3 {
        x: Fx {
            raw: (fx_mul(a.y.raw as int, b.z.raw as int) - fx_mul(a.z.raw as int, b.y.raw as int)) as i64,
        },
        y: Fx {
            raw: (fx_mul(a.z.raw as int, b.x.raw as int) - fx_mul(a.x.raw as int, b.z.raw as int)) as i64,
        },
        z: Fx {
            raw: (fx_mul(a.x.raw as int, b.y.raw as int) - fx_mul(a.y.raw as int, b.x.raw as int)) as i64,
        },
    }
}

/// The mirrored vector, componentwise: `v - 2 (v . n) n`.
pub open spec fn reflect_spec(v: Vector3, n: Vector3) -> Vector3 {
    Vector3 {
        x: Fx { raw: (v.x.raw - fx_mul(n.x.raw as int, 2 * dot_spec(v, n))) as i64 },
        y: Fx { raw: (v.y.raw - fx_mul(n.y.raw as int, 2 * dot_spec(v, n))) as i64 },
        z: Fx { raw: (v.z.raw - fx_mul(n.z.raw as int, 2 * dot_spec(v, n))) as i64 },
    }
}

/// The cosine term of refraction: the dot of the reversed incoming unit
/// direction with the normal, clamped to at most one.
pub open spec fn refract_cos_spec(uv: Vector3, n: Vector3) -> int {
    let c0 = dot3_spec(
        -(uv.x.raw as int),
        -(uv.y.raw as int),
        -(uv.z.raw as int),
        n.x.raw as int,
        n.y.raw as int,
        n.z.raw as int,
    );
    if c0 <= SCALE as int {
        c0
    } else {
        SCALE as int
    }
}

/// The component of the refracted ray perpendicular to the normal:
/// `(uv + n cos) * eta`, componentwise, over raw values.
pub open spec fn refract_perp_spec(uv: Vector3, n: Vector3, eta: int, i: int) -> int {
    let c = refract_cos_spec(uv, n);
    if i == 0 {
        fx_mul(uv.x.raw + fx_mul(n.x.raw as int, c), eta)
    } else if i == 1 {
        fx_mul(uv.y.raw + fx_mul(n.y.raw as int, c), eta)
    } else {
        fx_mul(uv.z.raw + fx_mul(n.z.raw as int, c), eta)
    }
}

/// The (non-negative) length of the parallel component:
/// `sqrt(|1 - |perp|^2|)`, over raw values.
pub open spec fn refract_par_spec(uv: Vector3, n: Vector3, eta: int) -> int {
    let px = refract_perp_spec(uv, n, eta, 0);
    let py = refract_perp_spec(uv, n, eta, 1);
    let pz = refract_perp_spec(uv, n, eta, 2);
    let plen = dot3_spec(px, py, pz, px, py, pz);
    let d = SCALE as int - plen;
    let ad = if d >= 0 {
        d
    } else {
        -d
    };
    fx_sqrt(ad)
}

/// The refracted direction, componentwise: perpendicular part plus
/// `n * (-sqrt(|1 - |perp|^2|))`.
pub open spec fn refract_spec(uv: Vector3, n: Vector3, eta: int, i: int) -> int {
    let s = -refract_par_spec(uv, n, eta);
    if i == 0 {
        fx_mul(n.x.raw as int, s) + refract_perp_spec(uv, n, eta, 0)
    } else if i == 1 {
        fx_mul(n.y.raw as int, s) + refract_perp_spec(uv, n, eta, 1)
    } else {
        fx_mul(n.z.raw as int, s) + refract_perp_spec(uv, n, eta, 2)
    }
}

/// Raw magnitude bound for a refraction ratio.
pub open spec fn fx_eta(x: int) -> bool {
    0 <= x <= 10 * (SCALE as int)
}

impl Vector3 {
    /// Bend `uv` through a surface with normal `n` by Snell's law, with
    /// refraction ratio `eta`.  The caller must rule out total internal
    /// reflection beforehand; this function does not validate the ratio.
    pub fn refract(uv: &Vector3, n: &Vector3, etai_over_etat: Fx) -> (r: Vector3)
        requires
            v_unitish(*uv),
            v_unitish(*n),
            fx_eta(etai_over_etat.raw as int),
        ensures
            r.x.raw == refract_spec(*uv, *n, etai_over_etat.raw as int, 0),
            r.y.raw == refract_spec(*uv, *n, etai_over_etat.raw as int, 1),
            r.z.raw == refract_spec(*uv, *n, etai_over_etat.raw as int, 2),
            v_geom(r),
    {
        let eta = etai_over_etat;
        let ghost s = SCALE as int;
        let nuv = uv.neg();
        let c = Vector3::dot(&nuv, n).min(Fx::one());
        proof {
            lemma_dot_unitish(nuv, *n);
            assert(refract_cos_spec(*uv, *n) == c.raw);
            lemma_fx_mul_tight(n.x.raw as int, c.raw as int, 3 * s, 28 * s);
            lemma_fx_mul_tight(n.y.raw as int, c.raw as int, 3 * s, 28 * s);
            lemma_fx_mul_tight(n.z.raw as int, c.raw as int, 3 * s, 28 * s);
            crate::fx::lemma_fdiv_exact(84 * s, s);
            assert(3 * s * (28 * s) == 84 * s * s) by (nonlinear_arith);
        }
        let scaled_n = n.mul(c);
        let summed = uv.add(scaled_n);
        proof {
            lemma_fx_mul_tight(summed.x.raw as int, eta.raw as int, 88 * s, 10 * s);
            lemma_fx_mul_tight(summed.y.raw as int, eta.raw as int, 88 * s, 10 * s);
            lemma_fx_mul_tight(summed.z.raw as int, eta.raw as int, 88 * s, 10 * s);
            crate::fx::lemma_fdiv_exact(880 * s, s);
            assert(88 * s * (10 * s) == 880 * s * s) by (nonlinear_arith);
        }
        let perp = summed.mul(eta);
        proof {
            lemma_fx_mul_tight(perp.x.raw as int, perp.x.raw as int, 881 * s, 881 * s);
            lemma_fx_mul_tight(perp.y.raw as int, perp.y.raw as int, 881 * s, 881 * s);
            lemma_fx_mul_tight(perp.z.raw as int, perp.z.raw as int, 881 * s, 881 * s);
            crate::fx::lemma_fdiv_exact(776161 * s, s);
            assert(881 * s * (881 * s) == 776161 * s * s) by (nonlinear_arith);
            lemma_square_nonneg(perp.x.raw as int);
            lemma_square_nonneg(perp.y.raw as int);
            lemma_square_nonneg(perp.z.raw as int);
        }
        let plen = perp.length_squared();
        let d = Fx::one().sub(plen);
        let ad = d.abs();
        let par = ad.sqrt();
        proof {
            crate::fx::lemma_sqrt_floor_props(ad.raw * s);
            assert(par.raw <= 1527 * s) by (nonlinear_arith)
                requires
                    par.raw >= 0,
                    (par.raw as int) * (par.raw as int) <= ad.raw * s,
                    0 <= ad.raw <= 2328483 * s,
                    s == 10000,
            ;
            lemma_fx_mul_tight(n.x.raw as int, -(par.raw as int), 3 * s, 1527 * s);
            lemma_fx_mul_tight(n.y.raw as int, -(par.raw as int), 3 * s, 1527 * s);
            lemma_fx_mul_tight(n.z.raw as int, -(par.raw as int), 3 * s, 1527 * s);
            crate::fx::lemma_fdiv_exact(4581 * s, s);
            assert(3 * s * (1527 * s) == 4581 * s * s) by (nonlinear_arith);
        }
        let r_par = n.mul(par.neg());
        r_par.add(perp)
    }
}


/// The state after three generator steps.
pub open spec fn rand3_state(s: u64) -> u64 {
    crate::utility::lcg_next_spec(
        crate::utility::lcg_next_spec(crate::utility::lcg_next_spec(s)),
    )
}

/// Three fresh samples in `[0, 1)`, one per component.
pub open spec fn new_random_spec(s: u64) -> Vector3 {
    let s2 = crate::utility::lcg_next_spec(s);
    Vector3 {
        x: Fx { raw: crate::utility::rand_raw_spec(s) as i64 },
        y: Fx { raw: crate::utility::rand_raw_spec(s2) as i64 },
        z: Fx { raw: crate::utility::rand_raw_spec(crate::utility::lcg_next_spec(s2)) as i64 },
    }
}

/// Three fresh samples in `[min, max)`, one per component.
pub open spec fn range_draw_spec(s: u64, minr: int, maxr: int) -> Vector3 {
    let s2 = crate::utility::lcg_next_spec(s);
    let s3 = crate::utility::lcg_next_spec(s2);
    Vector3 {
        x: Fx { raw: (fx_mul(crate::utility::rand_raw_spec(s), maxr - minr) + minr) as i64 },
        y: Fx { raw: (fx_mul(crate::utility::rand_raw_spec(s2), maxr - minr) + minr) as i64 },
        z: Fx { raw: (fx_mul(crate::utility::rand_raw_spec(s3), maxr - minr) + minr) as i64 },
    }
}

/// How many rejection attempts the samplers make before falling back to a
/// fixed in-range vector.
pub open spec fn sample_attempts() -> nat {
    16
}

/// Rejection sampling in the unit ball: draw in the cube `[-1, 1)^3` until
/// the squared length lies in `[1, SCALE)` raw steps, or fall back to
/// `(1/2, 0, 0)` when the attempts run out.  Samples shorter than one raw
/// step are rejected too, so the result can always be normalised.
pub open spec fn sample_sphere_spec(s: u64, fuel: nat) -> (Vector3, u64)
    decreases fuel,
{
    if fuel == 0 {
        (Vector3 { x: Fx { raw: 5000 }, y: Fx { raw: 0 }, z: Fx { raw: 0 } }, s)
    } else {
        let v = range_draw_spec(s, -10000, 10000);
        let s3 = rand3_state(s);
        if 1 <= length_squared_spec(v) < SCALE {
            (v, s3)
        } else {
            sample_sphere_spec(s3, (fuel - 1) as nat)
        }
    }
}

/// Rejection sampling in the unit disk of the xy plane; the fallback is
/// the origin, which lies in the disk.
pub open spec fn sample_disk_spec(s: u64, fuel: nat) -> (Vector3, u64)
    decreases fuel,
{
    if fuel == 0 {
        (Vector3 { x: Fx { raw: 0 }, y: Fx { raw: 0 }, z: Fx { raw: 0 } }, s)
    } else {
        let s2 = crate::utility::lcg_next_spec(s);
        let v = Vector3 {
            x: Fx { raw: (fx_mul(crate::utility::rand_raw_spec(s), 20000) + -10000) as i64 },
            y: Fx { raw: (fx_mul(crate::utility::rand_raw_spec(s2), 20000) + -10000) as i64 },
            z: Fx { raw: 0 },
        };
        let s3 = crate::utility::lcg_next_spec(s2);
        if length_squared_spec(v) < SCALE {
            (v, s3)
        } else {
            sample_disk_spec(s3, (fuel - 1) as nat)
        }
    }
}

/// The normalised form of `v`, componentwise.
pub open spec fn unit_spec(v: Vector3) -> Vector3 {
    Vector3 {
        x: Fx { raw: fx_div(v.x.raw as int, length_spec(v)) as i64 },
        y: Fx { raw: fx_div(v.y.raw as int, length_spec(v)) as i64 },
        z: Fx { raw: fx_div(v.z.raw as int, length_spec(v)) as i64 },
    }
}

/// The unit vector drawn from state `s`.
pub open spec fn random_unit_vector_spec(s: u64) -> Vector3 {
    unit_spec(sample_sphere_spec(s, sample_attempts()).0)
}

/// Normalising a vector of geometric size with a positive squared length
/// gives components within the unit working bound.
pub proof fn lemma_unit_vector_unitish(v: Vector3)
    requires
        v_geom(v),
        length_squared_spec(v) >= 1,
    ensures
        fx_unitish(fx_div(v.x.raw as int, length_spec(v))),
        fx_unitish(fx_div(v.y.raw as int, length_spec(v))),
        fx_unitish(fx_div(v.z.raw as int, length_spec(v))),
        length_spec(v) >= 100,
{
    let s = SCALE as int;
    let lsq = length_squared_spec(v);
    let ll = length_spec(v);
    crate::fx::lemma_sqrt_floor_props(lsq * s);
    assert(lsq * s >= 10000) by (nonlinear_arith)
        requires
            lsq >= 1,
            s == 10000,
    ;
    assert(ll >= 100) by (nonlinear_arith)
        requires
            ll >= 0,
            lsq * s < (ll + 1) * (ll + 1),
            lsq * s >= 10000,
    ;
    lemma_square_nonneg(v.x.raw as int);
    lemma_square_nonneg(v.y.raw as int);
    lemma_square_nonneg(v.z.raw as int);
    lemma_unit_component(v.x.raw as int, lsq, ll, fx_mul(v.x.raw as int, v.x.raw as int));
    lemma_unit_component(v.y.raw as int, lsq, ll, fx_mul(v.y.raw as int, v.y.raw as int));
    lemma_unit_component(v.z.raw as int, lsq, ll, fx_mul(v.z.raw as int, v.z.raw as int));
}

/// One component of the normalisation bound: if the component's square
/// contributes at most the squared length, the normalised component is
/// within the unit working bound.
proof fn lemma_unit_component(d: int, lsq: int, ll: int, dsq: int)
    requires
        dsq == fx_mul(d, d),
        dsq <= lsq,
        lsq >= 1,
        ll >= 100,
        ll * ll <= lsq * (SCALE as int),
        lsq * (SCALE as int) < (ll + 1) * (ll + 1),
    ensures
        fx_unitish(fx_div(d, ll)),
{
    let s = SCALE as int;
    crate::fx::lemma_fdiv_bracket(d * d, s);
    // d * d < (lsq + 1) * s <= (ll + 1)^2 + s <= (ll + 101)^2
    assert(d * d < (ll + 101) * (ll + 101)) by (nonlinear_arith)
        requires
            s == 10000,
            ll >= 100,
            s * fx_mul(d, d) <= d * d,
            d * d < s * (fx_mul(d, d) + 1),
            fx_mul(d, d) <= lsq,
            lsq * s < (ll + 1) * (ll + 1),
    ;
    assert(-(ll + 101) <= d <= ll + 101) by (nonlinear_arith)
        requires
            d * d < (ll + 101) * (ll + 101),
            ll >= 100,
    ;
    crate::fx::lemma_fdiv_bracket(d * s, ll);
    assert(-3 * s <= fdiv(d * s, ll) <= 3 * s) by (nonlinear_arith)
        requires
            s == 10000,
            ll >= 100,
            -(ll + 101) <= d <= ll + 101,
            ll * fdiv(d * s, ll) <= d * s,
            d * s < ll * (fdiv(d * s, ll) + 1),
    ;
}

impl Vector3 {
    /// A vector whose components are three fresh samples in `[0, 1)`.
    pub fn new_random(rng: &mut crate::utility::Rng) -> (r: Vector3)
        ensures
            r == new_random_spec(old(rng).state),
            final (rng).state == rand3_state(old(rng).state),
            v_unitish(r),
    {
        let x = rng.rand();
        let y = rng.rand();
        let z = rng.rand();
        Vector3 { x, y, z }
    }

    /// A vector whose components are three fresh samples in `[min, max)`.
    pub fn new_random_range(rng: &mut crate::utility::Rng, min: Fx, max: Fx) -> (r: Vector3)
        requires
            -0x1_0000_0000_0000 <= max.raw - min.raw <= 0x1_0000_0000_0000,
            -0x2_0000_0000_0000 <= min.raw <= 0x2_0000_0000_0000,
        ensures
            r == range_draw_spec(old(rng).state, min.raw as int, max.raw as int),
            final (rng).state == rand3_state(old(rng).state),
            min.raw <= max.raw ==> min.raw <= r.x.raw <= max.raw && min.raw <= r.y.raw <= max.raw
                && min.raw <= r.z.raw <= max.raw,
    {
        let x = rng.rand_range(min, max);
        let y = rng.rand_range(min, max);
        let z = rng.rand_range(min, max);
        Vector3 { x, y, z }
    }

    /// A point inside the unit ball, by bounded rejection sampling; the
    /// squared length always lands in `[1, SCALE)` raw steps.
    #[verifier::rlimit(80)]
    pub fn random_in_unit_sphere(rng: &mut crate::utility::Rng) -> (r: Vector3)
        ensures
            ({
                let pair = sample_sphere_spec(old(rng).state, sample_attempts());
                r == pair.0 && final (rng).state == pair.1
            }),
            1 <= length_squared_spec(r) < SCALE,
            v_unitish(r),
    {
        let ghost start = rng.state;
        let mut fuel: u32 = 16;
        while fuel > 0
            invariant
                0 <= fuel <= 16,
                start == old(rng).state,
                sample_sphere_spec(start, sample_attempts()) == sample_sphere_spec(
                    rng.state,
                    fuel as nat,
                ),
            decreases fuel,
        {
            let ghost s_top = rng.state;
            let neg_one = Fx::from_raw(-10000);
            let one = Fx::one();
            let v = Vector3::new_random_range(rng, neg_one, one);
            let lsq = v.length_squared();
            proof {
                assert(v == range_draw_spec(s_top, -10000, 10000));
                assert(rng.state == rand3_state(s_top));
            }
            if 1 <= lsq.raw && lsq.raw < SCALE {
                proof {
                    assert(sample_sphere_spec(s_top, fuel as nat) == (v, rng.state));
                }
                return v;
            }
            fuel = fuel - 1;
        }
        proof {
            crate::fx::lemma_fdiv_exact(2500, SCALE as int);
            crate::fx::lemma_fdiv_exact(0, SCALE as int);
        }
        Vector3 { x: Fx::from_raw(5000), y: Fx::zero(), z: Fx::zero() }
    }

    /// A point inside the unit disk of the xy plane, by bounded rejection
    /// sampling.
    #[verifier::rlimit(80)]
    pub fn random_in_unit_disk(rng: &mut crate::utility::Rng) -> (r: Vector3)
        ensures
            ({
                let pair = sample_disk_spec(old(rng).state, sample_attempts());
                r == pair.0 && final (rng).state == pair.1
            }),
            length_squared_spec(r) < SCALE,
            v_unitish(r),
            r.z.raw == 0,
    {
        let ghost start = rng.state;
        let mut fuel: u32 = 16;
        while fuel > 0
            invariant
                0 <= fuel <= 16,
                start == old(rng).state,
                sample_disk_spec(start, sample_attempts()) == sample_disk_spec(
                    rng.state,
                    fuel as nat,
                ),
            decreases fuel,
        {
            let ghost s_top = rng.state;
            let neg_one = Fx::from_raw(-10000);
            let one = Fx::one();
            let x = rng.rand_range(neg_one, one);
            let y = rng.rand_range(neg_one, one);
            let v = Vector3 { x, y, z: Fx::zero() };
            let lsq = v.length_squared();
            proof {
                assert(rng.state == crate::utility::lcg_next_spec(crate::utility::lcg_next_spec(s_top)));
            }
            if lsq.raw < SCALE {
                proof {
                    assert(sample_disk_spec(s_top, fuel as nat) == (v, rng.state));
                }
                return v;
            }
            fuel = fuel - 1;
        }
        proof {
            crate::fx::lemma_fdiv_exact(0, SCALE as int);
        }
        Vector3 { x: Fx::zero(), y: Fx::zero(), z: Fx::zero() }
    }

    /// A random direction of (approximately) unit length.
    pub fn random_unit_vector(rng: &mut crate::utility::Rng) -> (r: Vector3)
        ensures
            ({
                let pair = sample_sphere_spec(old(rng).state, sample_attempts());
                r == unit_spec(pair.0) && final (rng).state == pair.1
            }),
            v_unitish(r),
    {
        let v = Vector3::random_in_unit_sphere(rng);
        proof {
            lemma_unit_vector_unitish(v);
        }
        Vector3::unit_vector(&v)
    }

    /// A random direction in the hemisphere around `normal`.
    pub fn random_in_hemisphere(rng: &mut crate::utility::Rng, normal: &Vector3) -> (r: Vector3)
        requires
            v_unitish(*normal),
        ensures
            ({
                let pair = sample_sphere_spec(old(rng).state, sample_attempts());
                let inside = pair.0;
                final (rng).state == pair.1 && r == if dot_spec(inside, *normal) > 0 {
                    inside
                } else {
                    Vector3 {
                        x: Fx { raw: (-inside.x.raw) as i64 },
                        y: Fx { raw: (-inside.y.raw) as i64 },
                        z: Fx { raw: (-inside.z.raw) as i64 },
                    }
                }
            }),
            v_unitish(r),
    {
        let in_unit_sphere = Vector3::random_in_unit_sphere(rng);
        if Vector3::dot(&in_unit_sphere, normal).raw > 0 {
            return in_unit_sphere;
        }
        in_unit_sphere.neg()
    }
}


/// The squared length of any vector is exactly its dot product with
/// itself.
pub proof fn lemma_length_squared_is_dot(v: Vector3)
    ensures
        length_squared_spec(v) == dot_spec(v, v),
{
}

/// Normalising a vector that points along one axis and measures a whole
/// number of units gives a vector of length exactly one.  For general
/// vectors the rounded length and division leave the result within a few
/// steps of one; that approximate fact is exercised by tests.
pub proof fn lemma_unit_vector_exact_length(v: Vector3)
    requires
        v.y.raw == 0,
        v.z.raw == 0,
        v.x.raw >= SCALE,
        (v.x.raw as int) % (SCALE as int) == 0,
        fx_geom(v.x.raw as int),
    ensures
        length_spec(unit_spec(v)) == SCALE,
        length_squared_spec(unit_spec(v)) == SCALE,
{
    let s = SCALE as int;
    let a = v.x.raw as int;
    let k = a / s;
    vstd::arithmetic::div_mod::lemma_fundamental_div_mod(a, s);
    assert(a == k * s);
    assert(k >= 1) by (nonlinear_arith)
        requires
            a == k * s,
            a >= s,
            s == 10000,
    ;
    // length_squared of v is k * k * s, exactly
    crate::fx::lemma_fdiv_exact(0, s);
    assert(a * a == (k * k * s) * s) by (nonlinear_arith)
        requires
            a == k * s,
    ;
    crate::fx::lemma_fdiv_exact(k * k * s, s);
    assert(length_squared_spec(v) == k * k * s);
    // its length is k * s
    assert((k * s) * (k * s) == (k * k * s) * s) by (nonlinear_arith);
    assert((k * k * s) * s < (k * s + 1) * (k * s + 1)) by (nonlinear_arith)
        requires
            (k * s) * (k * s) == (k * k * s) * s,
            k * s >= 0,
    ;
    crate::fx::lemma_sqrt_floor_unique((k * k * s) * s, k * s);
    assert((s * s) < (s + 1) * (s + 1)) by (nonlinear_arith)
        requires
            s == 10000,
    ;
    assert(length_spec(v) == k * s);
    // the normalised x component is exactly one unit
    assert(a * s == s * (k * s)) by (nonlinear_arith)
        requires
            a == k * s,
    ;
    crate::fx::lemma_fdiv_exact(s, k * s);
    assert(k * s > 0) by (nonlinear_arith)
        requires
            k >= 1,
            s == 10000,
    ;
    assert(unit_spec(v).x.raw == s);
    assert(unit_spec(v).y.raw == 0 && unit_spec(v).z.raw == 0) by {
        crate::fx::lemma_fdiv_exact(0, k * s);
        assert(0 * s == 0 * (k * s)) by (nonlinear_arith);
    }
    // and the unit vector has squared length and length exactly one
    assert(s * s == s * s) by (nonlinear_arith);
    crate::fx::lemma_fdiv_exact(s, s);
    assert(length_squared_spec(unit_spec(v)) == s);
    crate::fx::lemma_sqrt_floor_unique(s * s, s);
}


/// One component of the normalisation error analysis: how far the
/// rescaled square `q` of the normalised component strays from the
/// original square term `c`, measured at matching scales.  The three
/// rounding remainders each contribute a bounded error.
proof fn lemma_unit_sq_component(a: int, lsq: int, L: int, c: int, u: int, q: int)
    requires
        L >= SCALE as int,
        lsq * (SCALE as int) < (L + 1) * (L + 1),
        c == fx_mul(a, a),
        c <= lsq,
        u == fx_div(a, L),
        q == fx_mul(u, u),
    ensures
        -(2 * (SCALE as int) * (L + 101) * L + L * L * (SCALE as int)) <= L * L * (SCALE as int)
            * q - (SCALE as int) * (SCALE as int) * (SCALE as int) * c,
        L * L * (SCALE as int) * q - (SCALE as int) * (SCALE as int) * (SCALE as int) * c <= (
        SCALE as int) * (SCALE as int) * (SCALE as int) + 2 * (SCALE as int) * (L + 101) * L + L
            * L,
        -((SCALE as int) + 102) <= u <= (SCALE as int) + 102,
{
    let s = SCALE as int;
    crate::fx::lemma_fdiv_bracket(a * s, L);
    crate::fx::lemma_fdiv_bracket(u * u, s);
    crate::fx::lemma_fdiv_bracket(a * a, s);
    let rho = a * s - L * u;
    let sigma = u * u - s * q;
    let tau = a * a - s * c;
    assert(0 <= rho < L && 0 <= sigma < s && 0 <= tau < s) by (nonlinear_arith)
        requires
            rho == a * s - L * u,
            sigma == u * u - s * q,
            tau == a * a - s * c,
            L * u <= a * s < L * (u + 1),
            s * q <= u * u < s * (q + 1),
            s * c <= a * a < s * (c + 1),
            L > 0,
            s > 0,
    ;
    // the square of the component stays within the vector's squared length
    assert(-(L + 101) <= a <= L + 101) by (nonlinear_arith)
        requires
            s == 10000,
            L >= s,
            a * a < s * (c + 1),
            c <= lsq,
            lsq * s < (L + 1) * (L + 1),
    ;
    assert(-(s + 102) <= u <= s + 102) by (nonlinear_arith)
        requires
            s == 10000,
            L >= s,
            -(L + 101) <= a <= L + 101,
            L * u <= a * s < L * (u + 1),
    ;
    // the exact error identity, assembled in small algebraic steps
    assert(L * L * (u * u) == (a * s - rho) * (a * s - rho)) by (nonlinear_arith)
        requires
            rho == a * s - L * u,
    ;
    assert((a * s - rho) * (a * s - rho) == (a * a) * (s * s) - 2 * (a * s) * rho + rho * rho)
        by (nonlinear_arith);
    assert(L * L * (u * u) == L * L * s * q + L * L * sigma) by (nonlinear_arith)
        requires
            sigma == u * u - s * q,
    ;
    assert((a * a) * (s * s) == s * s * s * c + tau * s * s) by (nonlinear_arith)
        requires
            tau == a * a - s * c,
    ;
    assert(L * L * s * q - s * s * s * c == tau * s * s - 2 * (a * s) * rho + rho * rho - L * L
        * sigma);
    assert(0 <= tau * s * s <= s * s * s) by (nonlinear_arith)
        requires
            s == 10000,
            0 <= tau < s,
    ;
    assert(-(2 * s * (L + 101) * L) <= 2 * (a * s) * rho <= 2 * s * (L + 101) * L)
        by (nonlinear_arith)
        requires
            s == 10000,
            L >= s,
            0 <= rho < L,
            -(L + 101) <= a <= L + 101,
    ;
    assert(0 <= rho * rho <= L * L) by (nonlinear_arith)
        requires
            0 <= rho < L,
    ;
    assert(0 <= L * L * sigma <= L * L * s) by (nonlinear_arith)
        requires
            s == 10000,
            L >= s,
            0 <= sigma < s,
    ;
}

/// Normalising any vector at least one unit long gives a vector whose
/// squared length and length are within a handful of steps of one.
pub proof fn lemma_unit_vector_near_unit(v: Vector3)
    requires
        v_geom(v),
        length_squared_spec(v) >= SCALE,
    ensures
        (SCALE as int) - 11 <= length_squared_spec(unit_spec(v)) <= (SCALE as int) + 13,
        (SCALE as int) - 6 <= length_spec(unit_spec(v)) <= (SCALE as int) + 6,
{
    let s = SCALE as int;
    let lsq = length_squared_spec(v);
    let L = length_spec(v);
    crate::fx::lemma_sqrt_floor_props(lsq * s);
    assert(lsq * s >= s * s) by (nonlinear_arith)
        requires
            lsq >= s,
            s == 10000,
    ;
    assert(L >= s) by (nonlinear_arith)
        requires
            L >= 0,
            s > 0,
            (L + 1) * (L + 1) > lsq * s,
            lsq * s >= s * s,
    ;
    let ax = v.x.raw as int;
    let ay = v.y.raw as int;
    let az = v.z.raw as int;
    let cx = fx_mul(ax, ax);
    let cy = fx_mul(ay, ay);
    let cz = fx_mul(az, az);
    lemma_square_nonneg(ax);
    lemma_square_nonneg(ay);
    lemma_square_nonneg(az);
    let ux = fx_div(ax, L);
    let uy = fx_div(ay, L);
    let uz = fx_div(az, L);
    let qx = fx_mul(ux, ux);
    let qy = fx_mul(uy, uy);
    let qz = fx_mul(uz, uz);
    lemma_unit_sq_component(ax, lsq, L, cx, ux, qx);
    lemma_unit_sq_component(ay, lsq, L, cy, uy, qy);
    lemma_unit_sq_component(az, lsq, L, cz, uz, qz);
    // the normalised components fit their storage, so the views agree
    assert(fits_i64(ux) && fits_i64(uy) && fits_i64(uz));
    assert(unit_spec(v).x.raw == ux && unit_spec(v).y.raw == uy && unit_spec(v).z.raw == uz);
    let T = length_squared_spec(unit_spec(v));
    assert(fx_mul(unit_spec(v).x.raw as int, unit_spec(v).x.raw as int) == qx);
    assert(fx_mul(unit_spec(v).y.raw as int, unit_spec(v).y.raw as int) == qy);
    assert(fx_mul(unit_spec(v).z.raw as int, unit_spec(v).z.raw as int) == qz);
    assert(T == qx + qy + qz);
    // sum the three component errors and divide through
    assert(L * L * s * T == L * L * s * qx + L * L * s * qy + L * L * s * qz) by (nonlinear_arith)
        requires
            T == qx + qy + qz,
    ;
    assert(s * s * s * lsq == s * s * s * cx + s * s * s * cy + s * s * s * cz)
        by (nonlinear_arith)
        requires
            lsq == cx + cy + cz,
    ;
    assert(s * s * (L * L) <= s * s * s * lsq) by (nonlinear_arith)
        requires
            L * L <= lsq * s,
            s > 0,
    ;
    assert(s * s * s * lsq <= s * s * ((L + 1) * (L + 1) - 1)) by (nonlinear_arith)
        requires
            lsq * s < (L + 1) * (L + 1),
            s > 0,
    ;
    assert(T >= s - 11) by (nonlinear_arith)
        requires
            s == 10000,
            L >= s,
            L * L * s * T >= s * s * (L * L) - 3 * (2 * s * (L + 101) * L + L * L * s),
    ;
    assert(T <= s + 13) by (nonlinear_arith)
        requires
            s == 10000,
            L >= s,
            L * L * s * T <= s * s * ((L + 1) * (L + 1) - 1) + 3 * (s * s * s + 2 * s * (L + 101)
                * L + L * L),
    ;
    // the length follows by bracketing the square root
    crate::fx::lemma_sqrt_floor_props(T * s);
    let Lu = crate::fx::sqrt_floor(T * s);
    assert(s - 6 <= Lu <= s + 6) by (nonlinear_arith)
        requires
            s == 10000,
            s - 11 <= T <= s + 13,
            Lu >= 0,
            Lu * Lu <= T * s,
            T * s < (Lu + 1) * (Lu + 1),
    ;
}

/// One raw component of an axis-aligned unit vector.
pub open spec fn axis_unit(n: Vector3) -> bool {
    ||| (n.x.raw == SCALE || n.x.raw == -SCALE) && n.y.raw == 0 && n.z.raw == 0
    ||| (n.y.raw == SCALE || n.y.raw == -SCALE) && n.x.raw == 0 && n.z.raw == 0
    ||| (n.z.raw == SCALE || n.z.raw == -SCALE) && n.x.raw == 0 && n.y.raw == 0
}

/// Reflection is involutive: mirroring twice about the same axis-aligned
/// unit normal returns the original vector.  About a general normal the
/// rounded products can differ from the original by a few steps; that
/// approximate fact is exercised by tests.
pub proof fn lemma_reflect_involutive(v: Vector3, n: Vector3)
    requires
        v_unitish(v),
        axis_unit(n),
    ensures
        reflect_spec(reflect_spec(v, n), n) == v,
{
    let s = SCALE as int;
    lemma_reflect_axis_dot(v, n);
    let w = reflect_spec(v, n);
    assert(v_unitish(w));
    lemma_reflect_axis_dot(w, n);
}

/// Mirroring about an axis-aligned unit normal negates exactly the
/// component along that axis.
proof fn lemma_reflect_axis_dot(v: Vector3, n: Vector3)
    requires
        v_unitish(v),
        axis_unit(n),
    ensures
        v_unitish(reflect_spec(v, n)),
        n.x.raw != 0 ==> reflect_spec(v, n) == (Vector3 {
            x: Fx { raw: (-v.x.raw) as i64 },
            y: v.y,
            z: v.z,
        }),
        n.y.raw != 0 ==> reflect_spec(v, n) == (Vector3 {
            x: v.x,
            y: Fx { raw: (-v.y.raw) as i64 },
            z: v.z,
        }),
        n.z.raw != 0 ==> reflect_spec(v, n) == (Vector3 {
            x: v.x,
            y: v.y,
            z: Fx { raw: (-v.z.raw) as i64 },
        }),
{
    let s = SCALE as int;
    crate::fx::lemma_fdiv_exact(0, s);
    if n.x.raw != 0 {
        lemma_axis_terms(v.x.raw as int, n.x.raw as int);
    } else if n.y.raw != 0 {
        lemma_axis_terms(v.y.raw as int, n.y.raw as int);
    } else {
        lemma_axis_terms(v.z.raw as int, n.z.raw as int);
    }
}

/// The two products that appear when the normal is `e` with `e = SCALE`
/// or `e = -SCALE`: the dot collapses to one term, and scaling the normal
/// by twice the dot is exact.
proof fn lemma_axis_terms(a: int, e: int)
    requires
        e == SCALE as int || e == -(SCALE as int),
        -3 * (SCALE as int) <= a <= 3 * (SCALE as int),
    ensures
        fx_mul(a, e) == if e == SCALE as int {
            a
        } else {
            -a
        },
        fx_mul(e, 2 * fx_mul(a, e)) == 2 * a,
        fx_mul(0, e) == 0,
        fx_mul(e, 0) == 0,
{
    let s = SCALE as int;
    crate::fx::lemma_fdiv_exact(0, s);
    if e == s {
        assert(a * e == a * s) by (nonlinear_arith)
            requires
                e == s,
        ;
        crate::fx::lemma_fdiv_exact(a, s);
        assert(e * (2 * a) == (2 * a) * s) by (nonlinear_arith)
            requires
                e == s,
        ;
        crate::fx::lemma_fdiv_exact(2 * a, s);
        assert(0 * e == 0 * s && e * 0 == 0 * s) by (nonlinear_arith);
    } else {
        assert(a * e == (-a) * s) by (nonlinear_arith)
            requires
                e == -s,
        ;
        crate::fx::lemma_fdiv_exact(-a, s);
        assert(e * (2 * (-a)) == (2 * a) * s) by (nonlinear_arith)
            requires
                e == -s,
        ;
        crate::fx::lemma_fdiv_exact(2 * a, s);
        assert(0 * e == 0 * s && e * 0 == 0 * s) by (nonlinear_arith);
    }
}

} // verus!
