//! Axis-aligned bounding boxes: the slab intersection test, union of two
//! boxes, surface area and longest axis.
//!
//! The slab test narrows the admissible parameter interval axis by axis.
//! A ray parallel to a slab (a zero direction component) passes that axis
//! exactly when its origin lies between the slab planes; a floating-point
//! tracer gets the same effect from division by zero producing infinities.

use vstd::prelude::*;

verus! {

use crate::fx::Fx;
use crate::fx::fx_mul;
use crate::fx::fx_div;
use crate::fx::fdiv;
use crate::point::Point;
use crate::point::p_geom;
use crate::ray::Ray;
use crate::vector3::v_geom;
use crate::vector3::GEOM_MAX;
use crate::vector3::lemma_fx_div_bound;
use crate::vector3::lemma_fx_mul_tight;

#[derive(Clone, Copy, PartialEq, Eq, Structural, Debug)]
pub struct BoundingBox {
    pub minimum: Point,
    pub maximum: Point,
}

/// The raw coordinate of `p` along axis `i` (0, 1 or 2).
pub open spec fn axis_spec(p: Point, i: int) -> int {
    if i == 0 {
        p.x.raw as int
    } else if i == 1 {
        p.y.raw as int
    } else {
        p.z.raw as int
    }
}

/// The raw component of `v` along axis `i` (0, 1 or 2).
pub open spec fn vaxis_spec(v: crate::vector3::Vector3, i: int) -> int {
    if i == 0 {
        v.x.raw as int
    } else if i == 1 {
        v.y.raw as int
    } else {
        v.z.raw as int
    }
}

/// The box is well formed: each minimum coordinate at most the maximum.
pub open spec fn bb_wf(bb: BoundingBox) -> bool {
    axis_spec(bb.minimum, 0) <= axis_spec(bb.maximum, 0) && axis_spec(bb.minimum, 1) <= axis_spec(
        bb.maximum,
        1,
    ) && axis_spec(bb.minimum, 2) <= axis_spec(bb.maximum, 2)
}

/// Both corners within the geometry working range.
pub open spec fn bb_geom(bb: BoundingBox) -> bool {
    p_geom(bb.minimum) && p_geom(bb.maximum)
}

/// The slab test from axis `i` onwards, over the interval `[tmin, tmax]`.
pub open spec fn slab_from(bb: BoundingBox, r: Ray, i: int, tmin: int, tmax: int) -> bool
    decreases 3 - i,
{
    if i >= 3 {
        true
    } else {
        let lo = axis_spec(bb.minimum, i);
        let hi = axis_spec(bb.maximum, i);
        let o = axis_spec(r.origin, i);
        let d = vaxis_spec(r.direction, i);
        if d == 0 {
            if !(lo <= o <= hi) {
                false
            } else if tmax <= tmin {
                false
            } else {
                slab_from(bb, r, i + 1, tmin, tmax)
            }
        } else {
            let qa = fx_div(lo - o, d);
            let qb = fx_div(hi - o, d);
            let t0 = if qa <= qb {
                qa
            } else {
                qb
            };
            let t1 = if qa >= qb {
                qa
            } else {
                qb
            };
            let m = if t0 > tmin {
                t0
            } else {
                tmin
            };
            let big = if t1 < tmax {
                t1
            } else {
                tmax
            };
            if big <= m {
                false
            } else {
                slab_from(bb, r, i + 1, m, big)
            }
        }
    }
}

/// Whether the ray meets the box within `[tmin, tmax]`.
pub open spec fn bbox_hit_spec(bb: BoundingBox, r: Ray, tmin: int, tmax: int) -> bool {
    slab_from(bb, r, 0, tmin, tmax)
}

/// The componentwise union of two boxes.
pub open spec fn surrounding_spec(a: BoundingBox, b: BoundingBox) -> BoundingBox {
    BoundingBox {
        minimum: Point {
            x: if a.minimum.x.raw <= b.minimum.x.raw {
                a.minimum.x
            } else {
                b.minimum.x
            },
            y: if a.minimum.y.raw <= b.minimum.y.raw {
                a.minimum.y
            } else {
                b.minimum.y
            },
            z: if a.minimum.z.raw <= b.minimum.z.raw {
                a.minimum.z
            } else {
                b.minimum.z
            },
        },
        maximum: Point {
            x: if a.maximum.x.raw >= b.maximum.x.raw {
                a.maximum.x
            } else {
                b.maximum.x
            },
            y: if a.maximum.y.raw >= b.maximum.y.raw {
                a.maximum.y
            } else {
                b.maximum.y
            },
            z: if a.maximum.z.raw >= b.maximum.z.raw {
                a.maximum.z
            } else {
                b.maximum.z
            },
        },
    }
}

/// One axis of the slab test; `None` reports that the axis rules the ray out.
fn slab_axis(lo: Fx, hi: Fx, o: Fx, d: Fx, tmin: Fx, tmax: Fx) -> (res: Option<(Fx, Fx)>)
    requires
        crate::vector3::fx_geom(lo.raw as int),
        crate::vector3::fx_geom(hi.raw as int),
        crate::vector3::fx_geom(o.raw as int),
        crate::vector3::fx_geom(d.raw as int),
    ensures
        ({
            let loi = lo.raw as int;
            let hii = hi.raw as int;
            let oi = o.raw as int;
            let di = d.raw as int;
            if di == 0 {
                if !(loi <= oi <= hii) {
                    res is None
                } else if tmax.raw <= tmin.raw {
                    res is None
                } else {
                    res == Some((tmin, tmax))
                }
            } else {
                let qa = fx_div(loi - oi, di);
                let qb = fx_div(hii - oi, di);
                let t0 = if qa <= qb {
                    qa
                } else {
                    qb
                };
                let t1 = if qa >= qb {
                    qa
                } else {
                    qb
                };
                let m = if t0 > tmin.raw {
                    t0
                } else {
                    tmin.raw as int
                };
                let big = if t1 < tmax.raw {
                    t1
                } else {
                    tmax.raw as int
                };
                if big <= m {
                    res is None
                } else {
                    res matches Some(p) && p.0.raw == m && p.1.raw == big
                }
            }
        }),
{
    if d.raw == 0 {
        if !(lo.raw <= o.raw && o.raw <= hi.raw) {
            return None;
        }
        if tmax.raw <= tmin.raw {
            return None;
        }
        return Some((tmin, tmax));
    }
    proof {
        lemma_fx_div_bound(lo.raw - o.raw, d.raw as int, 2 * (GEOM_MAX as int));
        lemma_fx_div_bound(hi.raw - o.raw, d.raw as int, 2 * (GEOM_MAX as int));
    }
    let qa = lo.sub(o).div(d);
    let qb = hi.sub(o).div(d);
    let t0 = qa.min(qb);
    let t1 = qa.max(qb);
    let m = t0.max(tmin);
    let big = t1.min(tmax);
    if big.raw <= m.raw {
        return None;
    }
    Some((m, big))
}

impl BoundingBox {
    pub fn new(minimum: Point, maximum: Point) -> (r: BoundingBox)
        ensures
            r.minimum == minimum,
            r.maximum == maximum,
    {
        BoundingBox { minimum, maximum }
    }

    pub fn min(&self) -> (r: &Point)
        ensures
            *r == self.minimum,
    {
        &self.minimum
    }

    pub fn max(&self) -> (r: &Point)
        ensures
            *r == self.maximum,
    {
        &self.maximum
    }

    /// The slab test: whether the ray meets this box inside `[t_min, t_max]`.
    pub fn hit(&self, r: &Ray, t_min: Fx, t_max: Fx) -> (res: bool)
        requires
            bb_geom(*self),
            p_geom(r.origin),
            v_geom(r.direction),
        ensures
            res == bbox_hit_spec(*self, *r, t_min.raw as int, t_max.raw as int),
    {
        proof {
            reveal_with_fuel(slab_from, 5);
        }
        let step0 = slab_axis(
            self.minimum.x,
            self.maximum.x,
            r.origin.x,
            r.direction.x,
            t_min,
            t_max,
        );
        let (m0, x0) = match step0 {
            None => {
                return false;
            },
            Some(p) => p,
        };
        let step1 = slab_axis(
            self.minimum.y,
            self.maximum.y,
            r.origin.y,
            r.direction.y,
            m0,
            x0,
        );
        let (m1, x1) = match step1 {
            None => {
                return false;
            },
            Some(p) => p,
        };
        let step2 = slab_axis(
            self.minimum.z,
            self.maximum.z,
            r.origin.z,
            r.direction.z,
            m1,
            x1,
        );
        match step2 {
            None => false,
            Some(_) => true,
        }
    }

    /// Surface area: `2 (lw + wh + lh)` over the three extents.
    pub fn area(&self) -> (r: Fx)
        requires
            bb_geom(*self),
        ensures
            ({
                let l = axis_spec(self.maximum, 0) - axis_spec(self.minimum, 0);
                let w = axis_spec(self.maximum, 1) - axis_spec(self.minimum, 1);
                let h = axis_spec(self.maximum, 2) - axis_spec(self.minimum, 2);
                r.raw == fx_mul(2 * crate::fx::SCALE as int, fx_mul(l, w) + fx_mul(w, h) + fx_mul(
                    l,
                    h,
                ))
            }),
    {
        let l = self.maximum.x.sub(self.minimum.x);
        let w = self.maximum.y.sub(self.minimum.y);
        let h = self.maximum.z.sub(self.minimum.z);
        proof {
            lemma_fx_mul_tight(l.raw as int, w.raw as int, 2 * GEOM_MAX as int, 2 * GEOM_MAX as int);
            lemma_fx_mul_tight(w.raw as int, h.raw as int, 2 * GEOM_MAX as int, 2 * GEOM_MAX as int);
            lemma_fx_mul_tight(l.raw as int, h.raw as int, 2 * GEOM_MAX as int, 2 * GEOM_MAX as int);
            let sum3 = fx_mul(l.raw as int, w.raw as int) + fx_mul(w.raw as int, h.raw as int)
                + fx_mul(l.raw as int, h.raw as int);
            lemma_fx_mul_tight(2 * crate::fx::SCALE as int, sum3, 2 * crate::fx::SCALE as int, 0x1000_0000_0000_0000);
        }
        let lw = l.mul(w);
        let wh = w.mul(h);
        let lh = l.mul(h);
        let two = Fx::from_int(2);
        two.mul(lw.add(wh).add(lh))
    }

    /// The axis with the greatest extent: 0, 1 or 2.
    pub fn longest_axis(&self) -> (r: i32)
        requires
            bb_geom(*self),
        ensures
            ({
                let l = axis_spec(self.maximum, 0) - axis_spec(self.minimum, 0);
                let w = axis_spec(self.maximum, 1) - axis_spec(self.minimum, 1);
                let h = axis_spec(self.maximum, 2) - axis_spec(self.minimum, 2);
                r == if l > w && l > h {
                    0int
                } else if w > h {
                    1int
                } else {
                    2int
                }
            }),
    {
        let l = self.maximum.x.sub(self.minimum.x);
        let w = self.maximum.y.sub(self.minimum.y);
        let h = self.maximum.z.sub(self.minimum.z);
        if l.raw > w.raw && l.raw > h.raw {
            return 0;
        }
        if w.raw > h.raw {
            return 1;
        }
        2
    }

    /// The smallest box containing both arguments: componentwise minimum of
    /// the minima and maximum of the maxima.
    pub fn surrounding_box(box0: &BoundingBox, box1: &BoundingBox) -> (r: BoundingBox)
        ensures
            r == surrounding_spec(*box0, *box1),
    {
        BoundingBox {
            minimum: Point {
                x: box0.minimum.x.min(box1.minimum.x),
                y: box0.minimum.y.min(box1.minimum.y),
                z: box0.minimum.z.min(box1.minimum.z),
            },
            maximum: Point {
                x: box0.maximum.x.max(box1.maximum.x),
                y: box0.maximum.y.max(box1.maximum.y),
                z: box0.maximum.z.max(box1.maximum.z),
            },
        }
    }
}

/// Widening a slab widens its parameter interval: entry comes no later and
/// exit no earlier.
proof fn lemma_axis_mono(lo_a: int, hi_a: int, lo_u: int, hi_u: int, o: int, d: int)
    requires
        d != 0,
        lo_u <= lo_a <= hi_a <= hi_u,
    ensures
        ({
            let qa_a = fx_div(lo_a - o, d);
            let qb_a = fx_div(hi_a - o, d);
            let qa_u = fx_div(lo_u - o, d);
            let qb_u = fx_div(hi_u - o, d);
            let t0_a = if qa_a <= qb_a {
                qa_a
            } else {
                qb_a
            };
            let t1_a = if qa_a >= qb_a {
                qa_a
            } else {
                qb_a
            };
            let t0_u = if qa_u <= qb_u {
                qa_u
            } else {
                qb_u
            };
            let t1_u = if qa_u >= qb_u {
                qa_u
            } else {
                qb_u
            };
            t0_u <= t0_a && t1_u >= t1_a
        }),
{
    let s = crate::fx::SCALE as int;
    if d > 0 {
        assert((lo_u - o) * s <= (lo_a - o) * s && (lo_a - o) * s <= (hi_a - o) * s && (hi_a - o)
            * s <= (hi_u - o) * s) by (nonlinear_arith)
            requires
                lo_u <= lo_a <= hi_a <= hi_u,
                s > 0,
        ;
        crate::fx::lemma_fdiv_mono((lo_u - o) * s, (lo_a - o) * s, d);
        crate::fx::lemma_fdiv_mono((lo_a - o) * s, (hi_a - o) * s, d);
        crate::fx::lemma_fdiv_mono((hi_a - o) * s, (hi_u - o) * s, d);
    } else {
        assert(-((lo_a - o) * s) <= -((lo_u - o) * s) && -((hi_a - o) * s) <= -((lo_a - o) * s)
            && -((hi_u - o) * s) <= -((hi_a - o) * s)) by (nonlinear_arith)
            requires
                lo_u <= lo_a <= hi_a <= hi_u,
                s > 0,
        ;
        crate::fx::lemma_fdiv_mono(-((lo_a - o) * s), -((lo_u - o) * s), -d);
        crate::fx::lemma_fdiv_mono(-((hi_a - o) * s), -((lo_a - o) * s), -d);
        crate::fx::lemma_fdiv_mono(-((hi_u - o) * s), -((hi_a - o) * s), -d);
    }
}

/// From axis `i` on, a passing ray still passes any box that is wider on
/// every axis, over any wider interval.
proof fn lemma_slab_from_mono(
    a: BoundingBox,
    u: BoundingBox,
    r: Ray,
    i: int,
    m1: int,
    x1: int,
    m2: int,
    x2: int,
)
    requires
        0 <= i,
        slab_from(a, r, i, m1, x1),
        m2 <= m1,
        x2 >= x1,
        axis_spec(u.minimum, 0) <= axis_spec(a.minimum, 0),
        axis_spec(u.minimum, 1) <= axis_spec(a.minimum, 1),
        axis_spec(u.minimum, 2) <= axis_spec(a.minimum, 2),
        axis_spec(u.maximum, 0) >= axis_spec(a.maximum, 0),
        axis_spec(u.maximum, 1) >= axis_spec(a.maximum, 1),
        axis_spec(u.maximum, 2) >= axis_spec(a.maximum, 2),
        bb_wf(a),
    ensures
        slab_from(u, r, i, m2, x2),
    decreases 3 - i,
{
    if i >= 3 {
    } else {
        let lo_a = axis_spec(a.minimum, i);
        let hi_a = axis_spec(a.maximum, i);
        let lo_u = axis_spec(u.minimum, i);
        let hi_u = axis_spec(u.maximum, i);
        let o = axis_spec(r.origin, i);
        let d = vaxis_spec(r.direction, i);
        if d == 0 {
            lemma_slab_from_mono(a, u, r, i + 1, m1, x1, m2, x2);
        } else {
            lemma_axis_mono(lo_a, hi_a, lo_u, hi_u, o, d);
            let qa_a = fx_div(lo_a - o, d);
            let qb_a = fx_div(hi_a - o, d);
            let t0_a = if qa_a <= qb_a {
                qa_a
            } else {
                qb_a
            };
            let t1_a = if qa_a >= qb_a {
                qa_a
            } else {
                qb_a
            };
            let ma = if t0_a > m1 {
                t0_a
            } else {
                m1
            };
            let xa = if t1_a < x1 {
                t1_a
            } else {
                x1
            };
            let qa_u = fx_div(lo_u - o, d);
            let qb_u = fx_div(hi_u - o, d);
            let t0_u = if qa_u <= qb_u {
                qa_u
            } else {
                qb_u
            };
            let t1_u = if qa_u >= qb_u {
                qa_u
            } else {
                qb_u
            };
            let mu = if t0_u > m2 {
                t0_u
            } else {
                m2
            };
            let xu = if t1_u < x2 {
                t1_u
            } else {
                x2
            };
            assert(mu <= ma);
            assert(xu >= xa);
            lemma_slab_from_mono(a, u, r, i + 1, ma, xa, mu, xu);
        }
    }
}

/// The union box never misses a ray that either input box reports:
/// `surrounding_box` may widen the set of reported rays, never narrow it.
pub proof fn lemma_surrounding_box_superset(
    a: BoundingBox,
    b: BoundingBox,
    r: Ray,
    tmin: int,
    tmax: int,
)
    requires
        bb_wf(a),
        bb_wf(b),
        bbox_hit_spec(a, r, tmin, tmax) || bbox_hit_spec(b, r, tmin, tmax),
    ensures
        bbox_hit_spec(surrounding_spec(a, b), r, tmin, tmax),
{
    let u = surrounding_spec(a, b);
    if bbox_hit_spec(a, r, tmin, tmax) {
        lemma_slab_from_mono(a, u, r, 0, tmin, tmax, tmin, tmax);
    } else {
        lemma_slab_from_mono(b, u, r, 0, tmin, tmax, tmin, tmax);
    }
}

} // verus!
