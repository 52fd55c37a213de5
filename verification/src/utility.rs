//! Shared helpers: a deterministic, explicitly-seeded random source,
//! clamping, and degree-to-radian conversion.
//!
//! The random source is a linear congruential generator threaded through
//! every sampling call as an explicit argument, so renders are reproducible
//! for a fixed seed and every consumer's contract can state exactly which
//! sample it drew.

use vstd::prelude::*;

verus! {

use crate::fx::Fx;
use crate::fx::SCALE;
use crate::fx::fx_mul;
use crate::fx::fx_div;
use crate::fx::fits_i64;

/// Multiplier of the linear congruential step.
pub const LCG_MUL: u64 = 6364136223846793005;

/// Increment of the linear congruential step.
pub const LCG_ADD: u64 = 1442695040888963407;

/// The generator state after one step.
#[verifier::opaque]
pub open spec fn lcg_next_spec(s: u64) -> u64 {
    vstd::wrapping::u64_specs::wrapping_add(
        vstd::wrapping::u64_specs::wrapping_mul(s, LCG_MUL),
        LCG_ADD,
    )
}

/// The raw fixed-point sample in `[0, 1)` drawn from state `s`: high bits
/// of the stepped state, reduced below one unit.
#[verifier::opaque]
pub open spec fn rand_raw_spec(s: u64) -> int {
    ((lcg_next_spec(s) >> 33) % (SCALE as u64)) as int
}

/// Every drawn sample lies in `[0, 1)`.
pub proof fn lemma_rand_raw_range(s: u64)
    ensures
        0 <= rand_raw_spec(s) < SCALE,
{
    reveal(rand_raw_spec);
}

/// A deterministic pseudo-random source.
#[derive(Clone, Copy, PartialEq, Eq, Structural, Debug)]
pub struct Rng {
    pub state: u64,
}

impl Rng {
    pub fn new(seed: u64) -> (r: Rng)
        ensures
            r.state == seed,
    {
        Rng { state: seed }
    }

    /// A sample in `[0, 1)`: `SCALE` equally likely raw values.
    pub fn rand(&mut self) -> (r: Fx)
        ensures
            final (self).state == lcg_next_spec(old(self).state),
            r.raw == rand_raw_spec(old(self).state),
            0 <= r.raw < SCALE,
    {
        proof {
            reveal(lcg_next_spec);
            reveal(rand_raw_spec);
        }
        self.state = self.state.wrapping_mul(LCG_MUL).wrapping_add(LCG_ADD);
        let raw: u64 = (self.state >> 33) % (SCALE as u64);
        Fx { raw: raw as i64 }
    }

    /// A sample in `[min, max)`: `rand() * (max - min) + min`.
    pub fn rand_range(&mut self, min: Fx, max: Fx) -> (r: Fx)
        requires
            fits_i64(max.raw - min.raw),
            -0x1_0000_0000_0000 <= max.raw - min.raw <= 0x1_0000_0000_0000,
            -0x2_0000_0000_0000 <= min.raw <= 0x2_0000_0000_0000,
        ensures
            final (self).state == lcg_next_spec(old(self).state),
            r.raw == fx_mul(rand_raw_spec(old(self).state), max.raw - min.raw) + min.raw,
            min.raw <= max.raw ==> min.raw <= r.raw <= max.raw,
    {
        let u = self.rand();
        proof {
            crate::vector3::lemma_fx_mul_bound(
                u.raw as int,
                max.raw - min.raw,
                SCALE as int,
                0x1_0000_0000_0000,
            );
            if min.raw <= max.raw {
                let span = max.raw - min.raw;
                crate::fx::lemma_fdiv_bracket(u.raw * span, SCALE as int);
                assert(0 <= fx_mul(u.raw as int, span) <= span) by (nonlinear_arith)
                    requires
                        0 <= u.raw < 10000,
                        span >= 0,
                        10000 * fx_mul(u.raw as int, span) <= u.raw * span,
                        u.raw * span < 10000 * (fx_mul(u.raw as int, span) + 1),
                ;
            }
        }
        u.mul(max.sub(min)).add(min)
    }
}

/// Keep `val` inside `[min, max]`.
pub fn clamp(val: Fx, min: Fx, max: Fx) -> (r: Fx)
    ensures
        r.raw == if val.raw > max.raw {
            max.raw as int
        } else if val.raw < min.raw {
            min.raw as int
        } else {
            val.raw as int
        },
{
    if val.raw > max.raw {
        return max;
    }
    if val.raw < min.raw {
        return min;
    }
    val
}

/// The fixed-point value of pi.
pub const PI_RAW: i64 = 31416;

/// Convert degrees to radians: `deg * pi / 180`.
pub fn degrees_to_radians(deg: Fx) -> (r: Fx)
    requires
        -360 * (SCALE as int) <= deg.raw <= 360 * (SCALE as int),
    ensures
        r.raw == fx_div(fx_mul(deg.raw as int, PI_RAW as int), 180 * (SCALE as int)),
{
    proof {
        crate::vector3::lemma_fx_mul_bound(
            deg.raw as int,
            PI_RAW as int,
            360 * (SCALE as int),
            PI_RAW as int,
        );
        crate::vector3::lemma_fx_div_bound(
            fx_mul(deg.raw as int, PI_RAW as int),
            180 * (SCALE as int),
            360 * (SCALE as int) * (PI_RAW as int),
        );
    }
    let pi = Fx::from_raw(PI_RAW);
    let d180 = Fx::from_int(180);
    deg.mul(pi).div(d180)
}

} // verus!
