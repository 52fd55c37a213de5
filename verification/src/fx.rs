//! The fixed-point scalar.
//!
//! A `Fx` holds an `i64` count of steps of size `1 / SCALE`; the number it
//! stands for is `raw / SCALE`.  Sums and differences are exact; products,
//! quotients and square roots round towards negative infinity, and each
//! operation's contract states the exact rounded result over the raw
//! integers, so callers can reason about every bit of the outcome.

use vstd::prelude::*;

verus! {

use vstd::arithmetic::div_mod::lemma_fundamental_div_mod;
use vstd::arithmetic::div_mod::lemma_fundamental_div_mod_converse;
use vstd::arithmetic::div_mod::lemma_div_is_ordered;

/// Number of fixed-point steps in one unit.
pub const SCALE: i64 = 10000;

/// Floor division: the unique `d` with `d * q <= p < (d + 1) * q` for `q > 0`;
/// for `q < 0` both operands are negated first, which leaves the value alone.
pub open spec fn fdiv(p: int, q: int) -> int {
    if q > 0 {
        p / q
    } else {
        (-p) / (-q)
    }
}

/// The raw value of a fixed-point product: `a * b` scaled back down, floored.
pub open spec fn fx_mul(a: int, b: int) -> int {
    fdiv(a * b, SCALE as int)
}

/// The raw value of a fixed-point quotient: `a / b` scaled up, floored.
pub open spec fn fx_div(a: int, b: int) -> int {
    fdiv(a * (SCALE as int), b)
}

/// Integer square root, rounded down; 0 for negative arguments.
pub open spec fn sqrt_floor(n: int) -> int
    decreases n,
{
    if n <= 0 {
        0
    } else {
        let r = sqrt_floor(n - 1);
        if (r + 1) * (r + 1) <= n {
            r + 1
        } else {
            r
        }
    }
}

/// The raw value of a fixed-point square root: `sqrt(raw / SCALE) * SCALE`
/// is `sqrt(raw * SCALE)`, floored.
pub open spec fn fx_sqrt(a: int) -> int {
    sqrt_floor(a * (SCALE as int))
}

pub open spec fn fits_i64(x: int) -> bool {
    i64::MIN <= x <= i64::MAX
}

/// `sqrt_floor(n)` really is the floor of the square root.
pub proof fn lemma_sqrt_floor_props(n: int)
    requires
        n >= 0,
    ensures
        sqrt_floor(n) >= 0,
        sqrt_floor(n) * sqrt_floor(n) <= n,
        n < (sqrt_floor(n) + 1) * (sqrt_floor(n) + 1),
    decreases n,
{
    if n == 0 {
    } else {
        lemma_sqrt_floor_props(n - 1);
        let r = sqrt_floor(n - 1);
        if (r + 1) * (r + 1) <= n {
            assert(n < (r + 2) * (r + 2)) by (nonlinear_arith)
                requires
                    r >= 0,
                    n - 1 < (r + 1) * (r + 1),
            ;
        }
    }
}

/// The floor of the square root is unique: any bracketing `r` equals it.
pub proof fn lemma_sqrt_floor_unique(n: int, r: int)
    requires
        n >= 0,
        r >= 0,
        r * r <= n,
        n < (r + 1) * (r + 1),
    ensures
        r == sqrt_floor(n),
{
    lemma_sqrt_floor_props(n);
    let s = sqrt_floor(n);
    assert(r == s) by (nonlinear_arith)
        requires
            r >= 0,
            s >= 0,
            r * r <= n,
            n < (r + 1) * (r + 1),
            s * s <= n,
            n < (s + 1) * (s + 1),
    ;
}

/// Floor division brackets the dividend: `q * fdiv(p, q) <= p < q * (fdiv(p, q) + 1)`.
pub proof fn lemma_fdiv_bracket(p: int, q: int)
    requires
        q > 0,
    ensures
        q * fdiv(p, q) <= p,
        p < q * (fdiv(p, q) + 1),
{
    lemma_fundamental_div_mod(p, q);
    assert(q * (fdiv(p, q) + 1) == q * fdiv(p, q) + q) by (nonlinear_arith);
}

/// Floor division is monotone in the dividend.
pub proof fn lemma_fdiv_mono(p1: int, p2: int, q: int)
    requires
        q > 0,
        p1 <= p2,
    ensures
        fdiv(p1, q) <= fdiv(p2, q),
{
    lemma_div_is_ordered(p1, p2, q);
}

/// When the divisor divides evenly, floor division is exact.
pub proof fn lemma_fdiv_exact(k: int, q: int)
    requires
        q > 0,
    ensures
        fdiv(k * q, q) == k,
{
    lemma_fundamental_div_mod_converse(k * q, q, k, 0);
}

/// A bound on the dividend bounds the quotient.
pub proof fn lemma_fdiv_bound(p: int, q: int, b: int)
    requires
        q > 0,
        -b <= p <= b,
        b >= 0,
    ensures
        -b <= fdiv(p, q) <= b,
{
    lemma_fdiv_bracket(p, q);
    assert(-b <= fdiv(p, q) <= b) by (nonlinear_arith)
        requires
            q > 0,
            -b <= p <= b,
            b >= 0,
            q * fdiv(p, q) <= p,
            p < q * (fdiv(p, q) + 1),
    ;
}

/// `|a * b| <= |bound_a * bound_b|` when the factors are bounded.
pub proof fn lemma_mul_bound(a: int, b: int, ba: int, bb: int)
    requires
        -ba <= a <= ba,
        -bb <= b <= bb,
    ensures
        -(ba * bb) <= a * b <= ba * bb,
    decreases 0int,
{
    assert(-(ba * bb) <= a * b <= ba * bb) by (nonlinear_arith)
        requires
            -ba <= a <= ba,
            -bb <= b <= bb,
    ;
}

/// Floor division of a negated dividend is the negated ceiling:
/// for `m >= 1`, `fdiv(-m, q) == -((m - 1) / q + 1)`.
pub proof fn lemma_fdiv_neg(m: int, q: int)
    requires
        m >= 1,
        q > 0,
    ensures
        fdiv(-m, q) == -((m - 1) / q + 1),
{
    let d = m / q;
    let r = m % q;
    lemma_fundamental_div_mod(m, q);
    if r == 0 {
        // m - 1 sits just below a multiple of q; -m is exactly -d multiples.
        assert(m - 1 == (d - 1) * q + (q - 1) && -m == (-d) * q + 0) by (nonlinear_arith)
            requires
                m == q * d,
        ;
        lemma_fundamental_div_mod_converse(m - 1, q, d - 1, q - 1);
        lemma_fundamental_div_mod_converse(-m, q, -d, 0);
    } else {
        assert(m - 1 == d * q + (r - 1) && -m == (-d - 1) * q + (q - r)) by (nonlinear_arith)
            requires
                m == q * d + r,
        ;
        lemma_fundamental_div_mod_converse(m - 1, q, d, r - 1);
        lemma_fundamental_div_mod_converse(-m, q, -d - 1, q - r);
    }
}

/// Flooring a negated dividend never lands above the negated floor.
pub proof fn lemma_fdiv_antisym(p: int, q: int)
    requires
        q > 0,
    ensures
        fdiv(-p, q) <= -fdiv(p, q),
{
    lemma_fdiv_bracket(p, q);
    lemma_fdiv_bracket(-p, q);
    assert(fdiv(-p, q) <= -fdiv(p, q)) by (nonlinear_arith)
        requires
            q > 0,
            q * fdiv(p, q) <= p,
            q * fdiv(-p, q) <= -p,
            p < q * (fdiv(p, q) + 1),
            -p < q * (fdiv(-p, q) + 1),
    ;
}

/// Floor division on wide integers; the divisor must be positive.
pub fn flrdiv128(p: i128, q: i128) -> (r: i128)
    requires
        q > 0,
        p > i128::MIN,
    ensures
        r == fdiv(p as int, q as int),
{
    if p >= 0 {
        let pu: u128 = p as u128;
        let qu: u128 = q as u128;
        (pu / qu) as i128
    } else {
        let m: u128 = (-p) as u128;
        let qu: u128 = q as u128;
        let t: u128 = (m - 1) / qu + 1;
        proof {
            lemma_fdiv_neg(m as int, q as int);
            lemma_fdiv_bound((m - 1) as int, q as int, (m - 1) as int);
        }
        -(t as i128)
    }
}


/// Multiplying by one is exact.
pub proof fn lemma_fx_mul_one_right(a: int)
    ensures
        fx_mul(a, SCALE as int) == a,
{
    lemma_fdiv_exact(a, SCALE as int);
}

/// Multiplying by minus one is exact.
pub proof fn lemma_fx_mul_neg_one_right(a: int)
    ensures
        fx_mul(a, -(SCALE as int)) == -a,
{
    assert(a * (-(SCALE as int)) == (-a) * (SCALE as int)) by (nonlinear_arith);
    lemma_fdiv_exact(-a, SCALE as int);
}

/// Multiplying zero by anything gives zero.
pub proof fn lemma_fx_mul_zero_left(b: int)
    ensures
        fx_mul(0, b) == 0,
{
    assert(0 * b == 0 * (SCALE as int)) by (nonlinear_arith);
    lemma_fdiv_exact(0, SCALE as int);
}

/// The square of plus or minus one is one.
pub proof fn lemma_fx_square_pm_one(a: int)
    requires
        a == SCALE as int || a == -(SCALE as int),
    ensures
        fx_mul(a, a) == SCALE as int,
{
    assert(a * a == (SCALE as int) * (SCALE as int)) by (nonlinear_arith)
        requires
            a == SCALE as int || a == -(SCALE as int),
    ;
    lemma_fdiv_exact(SCALE as int, SCALE as int);
}

/// A fixed-point number: the value `raw / SCALE`.
#[derive(Clone, Copy, PartialEq, Eq, Structural, Debug)]
pub struct Fx {
    pub raw: i64,
}

impl Fx {
    /// The number made of `raw` steps of size `1 / SCALE`.
    pub fn from_raw(raw: i64) -> (r: Fx)
        ensures
            r.raw == raw,
    {
        Fx { raw }
    }

    /// The whole number `n`.
    pub fn from_int(n: i64) -> (r: Fx)
        requires
            fits_i64(n * (SCALE as int)),
        ensures
            r.raw == n * (SCALE as int),
    {
        Fx { raw: n * SCALE }
    }

    pub fn zero() -> (r: Fx)
        ensures
            r.raw == 0,
    {
        Fx { raw: 0 }
    }

    pub fn one() -> (r: Fx)
        ensures
            r.raw == SCALE,
    {
        Fx { raw: SCALE }
    }

    pub fn add(self, o: Fx) -> (r: Fx)
        requires
            fits_i64(self.raw + o.raw),
        ensures
            r.raw == self.raw + o.raw,
    {
        Fx { raw: self.raw + o.raw }
    }

    pub fn sub(self, o: Fx) -> (r: Fx)
        requires
            fits_i64(self.raw - o.raw),
        ensures
            r.raw == self.raw - o.raw,
    {
        Fx { raw: self.raw - o.raw }
    }

    pub fn neg(self) -> (r: Fx)
        requires
            self.raw > i64::MIN,
        ensures
            r.raw == -self.raw,
    {
        Fx { raw: -self.raw }
    }

    pub fn abs(self) -> (r: Fx)
        requires
            self.raw > i64::MIN,
        ensures
            r.raw == if self.raw >= 0 { self.raw as int } else { -self.raw },
    {
        if self.raw >= 0 {
            self
        } else {
            Fx { raw: -self.raw }
        }
    }

    pub fn min(self, o: Fx) -> (r: Fx)
        ensures
            r.raw == if self.raw <= o.raw { self.raw } else { o.raw },
    {
        if self.raw <= o.raw {
            self
        } else {
            o
        }
    }

    pub fn max(self, o: Fx) -> (r: Fx)
        ensures
            r.raw == if self.raw >= o.raw { self.raw } else { o.raw },
    {
        if self.raw >= o.raw {
            self
        } else {
            o
        }
    }

    pub fn lt(self, o: Fx) -> (r: bool)
        ensures
            r == (self.raw < o.raw),
    {
        self.raw < o.raw
    }

    pub fn le(self, o: Fx) -> (r: bool)
        ensures
            r == (self.raw <= o.raw),
    {
        self.raw <= o.raw
    }

    /// Fixed-point product, rounded towards negative infinity.
    pub fn mul(self, o: Fx) -> (r: Fx)
        requires
            fits_i64(fx_mul(self.raw as int, o.raw as int)),
        ensures
            r.raw == fx_mul(self.raw as int, o.raw as int),
    {
        proof {
            lemma_mul_bound(self.raw as int, o.raw as int, 0x8000_0000_0000_0000, 0x8000_0000_0000_0000);
        }
        let p: i128 = (self.raw as i128) * (o.raw as i128);
        let w: i128 = flrdiv128(p, SCALE as i128);
        Fx { raw: w as i64 }
    }

    /// Fixed-point quotient, rounded towards negative infinity.
    pub fn div(self, o: Fx) -> (r: Fx)
        requires
            o.raw != 0,
            fits_i64(fx_div(self.raw as int, o.raw as int)),
        ensures
            r.raw == fx_div(self.raw as int, o.raw as int),
    {
        let p: i128 = (self.raw as i128) * (SCALE as i128);
        let q: i128 = o.raw as i128;
        let w: i128 = if o.raw < 0 {
            flrdiv128(-p, -q)
        } else {
            flrdiv128(p, q)
        };
        Fx { raw: w as i64 }
    }

    /// Fixed-point square root, rounded towards negative infinity.
    pub fn sqrt(self) -> (r: Fx)
        requires
            self.raw >= 0,
        ensures
            r.raw == fx_sqrt(self.raw as int),
            r.raw >= 0,
    {
        proof {
            lemma_mul_bound(self.raw as int, SCALE as int, 0x8000_0000_0000_0000, 0x10000);
        }
        let n: u128 = (self.raw as u128) * (SCALE as u128);
        let s: u128 = isqrt_u128(n);
        proof {
            lemma_sqrt_floor_unique(n as int, s as int);
            assert(s < 0x80_0000_0000int) by (nonlinear_arith)
                requires
                    (s as int) * (s as int) <= n,
                    n < 0x4000_0000_0000_0000_0000int,
            ;
        }
        Fx { raw: s as i64 }
    }
}

/// Integer square root by binary search.
pub(crate) fn isqrt_u128(n: u128) -> (r: u128)
    ensures
        r * r <= n,
        n < (r + 1) * (r + 1),
        r < 0x1_0000_0000_0000_0000,
{
    let mut lo: u128 = 0;
    let mut hi: u128 = 0x1_0000_0000_0000_0000;
    proof {
        assert((hi as int) * (hi as int) > n) by (nonlinear_arith)
            requires
                hi == 0x1_0000_0000_0000_0000u128,
                n < 0x1_0000_0000_0000_0000_0000_0000_0000_0000int,
        ;
    }
    while lo + 1 < hi
        invariant
            lo < hi <= 0x1_0000_0000_0000_0000,
            (lo as int) * (lo as int) <= n,
            n < (hi as int) * (hi as int),
        decreases hi - lo,
    {
        let mid: u128 = lo + (hi - lo) / 2;
        proof {
            assert((mid as int) * (mid as int) < 0x1_0000_0000_0000_0000_0000_0000_0000_0000int)
                by (nonlinear_arith)
                requires
                    mid < 0x1_0000_0000_0000_0000u128,
            ;
        }
        if mid * mid <= n {
            lo = mid;
        } else {
            hi = mid;
        }
    }
    lo
}

} // verus!
