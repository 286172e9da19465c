//! Column vectors in three dimensions over fixed-point scalars.
use vstd::prelude::*;
use vstd::arithmetic::div_mod::*;
use vstd::arithmetic::mul::*;
use crate::fx::{
    absi, fxm, fxd, tdiv, sqrti, is_sqrt, fx_mul, fx_div, fx_sqrt,
    lemma_abs_mul, lemma_tdiv_abs, lemma_tdiv_nonneg, lemma_fxm_bound, lemma_sqrt_unique,
    MUL_LIM, FXD_LIM, DIV_LIM,
};
use crate::{SCALE, random_range};

verus! {

/// Largest component magnitude `length` and `unit` accept.
pub const VLEN_LIM: i128 = 144115188075855872;

/// Object to represent a column vector in 3 dimensions
#[derive(Clone, Copy, PartialEq, Eq, Structural, Debug)]
pub struct Vec3 {
    pub x: i128,
    pub y: i128,
    pub z: i128,
}

/// Every component of `v` has magnitude at most `b`.
pub open spec fn in_range(v: Vec3, b: int) -> bool {
    absi(v.x as int) <= b && absi(v.y as int) <= b && absi(v.z as int) <= b
}

/// The fixed-point dot product.
pub open spec fn dot_spec(u: Vec3, v: Vec3) -> int {
    fxm(u.x as int, v.x as int) + fxm(u.y as int, v.y as int) + fxm(u.z as int, v.z as int)
}

/// The fixed-point squared length.
pub open spec fn ls_spec(v: Vec3) -> int {
    dot_spec(v, v)
}

/// The fixed-point length.
pub open spec fn vlen(v: Vec3) -> int {
    sqrti(ls_spec(v) * SCALE as int)
}

/// The component of `v` along `axis` (0, 1 or 2 for x, y or z).
pub open spec fn comp(v: Vec3, axis: int) -> int {
    if axis == 0 { v.x as int } else if axis == 1 { v.y as int } else { v.z as int }
}

/// The square of a scalar is a non-negative scalar.
pub proof fn lemma_fxm_sq_nonneg(a: int)
    ensures
        fxm(a, a) >= 0,
{
    assert(a * a >= 0) by (nonlinear_arith);
    lemma_tdiv_nonneg(a * a, SCALE as int);
}

/// Each dot-product term is bounded by the whole squared length.
pub proof fn lemma_ls_terms(v: Vec3)
    ensures
        fxm(v.x as int, v.x as int) <= ls_spec(v),
        fxm(v.y as int, v.y as int) <= ls_spec(v),
        fxm(v.z as int, v.z as int) <= ls_spec(v),
        ls_spec(v) >= 0,
{
    lemma_fxm_sq_nonneg(v.x as int);
    lemma_fxm_sq_nonneg(v.y as int);
    lemma_fxm_sq_nonneg(v.z as int);
}

/// A component of a vector divided by the vector's length has magnitude at
/// most two whole units.
pub proof fn lemma_unit_scalar(x: int, ls: int)
    requires
        fxm(x, x) <= ls,
        1 <= ls,
        absi(x) <= VLEN_LIM as int,
    ensures
        256 <= sqrti(ls * SCALE as int),
        absi(fxd(x, sqrti(ls * SCALE as int))) <= 2 * SCALE as int,
{
    let s = SCALE as int;
    let len = sqrti(ls * s);
    assert(is_sqrt(len, ls * s)) by {
        lemma_mul_nonnegative(ls, s);
        lemma_sqrt_exists(ls * s);
    }
    // ls >= 1 makes ls * s at least one whole unit, so len >= 256.
    assert(len >= 256) by (nonlinear_arith)
        requires is_sqrt(len, ls * s), ls >= 1, s == SCALE as int;
    // x * x <= ls * s + s - 1 from the truncation in fxm.
    assert(x * x <= ls * s + s - 1) by {
        lemma_abs_mul(x, x);
        lemma_mul_nonnegative(absi(x), absi(x));
        lemma_tdiv_abs(x * x, s);
        lemma_fundamental_div_mod(x * x, s);
        lemma_mod_division_less_than_divisor(x * x, s);
        lemma_mul_inequality(tdiv(x * x, s), ls, s);
    }
    assert(x * x <= 4 * (len * len)) by (nonlinear_arith)
        requires
            x * x <= ls * s + s - 1,
            is_sqrt(len, ls * s),
            len >= 256,
            s == 65536;
    assert(absi(x) <= 2 * len) by (nonlinear_arith)
        requires x * x <= 4 * (len * len), len >= 0;
    // Dividing |x| * SCALE <= (2 len) * SCALE by len leaves at most 2 SCALE.
    lemma_abs_mul(x, s);
    lemma_tdiv_abs(x * s, len);
    lemma_mul_inequality(absi(x), 2 * len, s);
    lemma_div_is_ordered(absi(x) * s, (2 * len) * s, len);
    assert((2 * len) * s == (2 * s) * len) by (nonlinear_arith);
    lemma_div_multiples_vanish(2 * s, len);
}

/// The existence half of `sqrti`: every non-negative integer has a root.
pub proof fn lemma_sqrt_exists(x: int)
    requires
        0 <= x,
    ensures
        exists|r: int| is_sqrt(r, x),
    decreases x,
{
    if x == 0 {
        assert(is_sqrt(0, 0));
    } else {
        lemma_sqrt_exists(x - 1);
        let r = choose|r: int| #[trigger] is_sqrt(r, x - 1);
        if x < (r + 1) * (r + 1) {
            assert(is_sqrt(r, x));
        } else {
            assert(x == (r + 1) * (r + 1));
            assert(is_sqrt(r + 1, x)) by (nonlinear_arith)
                requires x == (r + 1) * (r + 1), r >= 0;
        }
    }
}

impl Vec3 {
    /// Returns a zero vector
    pub fn zero() -> (r: Vec3)
        ensures
            r.x == 0 && r.y == 0 && r.z == 0,
    {
        Vec3 { x: 0, y: 0, z: 0 }
    }

    /// Returns a vector with x, y, and z of one whole unit
    pub fn one() -> (r: Vec3)
        ensures
            r.x == SCALE && r.y == SCALE && r.z == SCALE,
    {
        Vec3 { x: SCALE, y: SCALE, z: SCALE }
    }

    /// Constructs a new vector with given x, y, and z values
    pub fn new(x: i128, y: i128, z: i128) -> (r: Vec3)
        ensures
            r.x == x && r.y == y && r.z == z,
    {
        Vec3 { x, y, z }
    }

    /// Constructs a vector with random components between a given range
    pub fn random(min: i128, max: i128) -> (r: Vec3)
        requires
            min <= max,
            crate::bounded(min as int),
            crate::bounded(max as int),
        ensures
            min <= r.x <= max && min <= r.y <= max && min <= r.z <= max,
    {
        Vec3 {
            x: random_range(min, max),
            y: random_range(min, max),
            z: random_range(min, max),
        }
    }

    /// Returns a random vector in the unit sphere, never so short that it
    /// cannot be normalised.
    pub fn random_in_unit_sphere() -> (r: Vec3)
        ensures
            in_range(r, SCALE as int),
            1 <= ls_spec(r) < SCALE,
    {
        let mut tries: u32 = 0;
        while tries < 64
            invariant tries <= 64,
            decreases 64 - tries,
        {
            let p = Vec3::random(-SCALE, SCALE);
            let ls = p.length_squared();
            if 1 <= ls && ls < SCALE {
                return p;
            }
            tries = tries + 1;
        }
        let f = Vec3 { x: 32768, y: 0, z: 0 };
        proof {
            assert(fxm(0, 0) == 0);
            assert(fxm(32768, 32768) == 16384);
        }
        f
    }

    /// Returns a random vector in the unit disk, never so short that it
    /// cannot be normalised.
    pub fn random_in_unit_disk() -> (r: Vec3)
        ensures
            in_range(r, SCALE as int),
            1 <= ls_spec(r) < SCALE,
            r.z == 0,
    {
        let mut tries: u32 = 0;
        while tries < 64
            invariant tries <= 64,
            decreases 64 - tries,
        {
            let p = Vec3 { x: random_range(-SCALE, SCALE), y: random_range(-SCALE, SCALE), z: 0 };
            let ls = p.length_squared();
            if 1 <= ls && ls < SCALE {
                return p;
            }
            tries = tries + 1;
        }
        let f = Vec3 { x: 32768, y: 0, z: 0 };
        proof {
            assert(fxm(0, 0) == 0);
            assert(fxm(32768, 32768) == 16384);
        }
        f
    }

    /// Returns a random unit vector: the normalisation of a sample drawn
    /// from the unit sphere.
    pub fn random_unit_vector() -> (r: Vec3)
        ensures
            exists|p: Vec3| {
                &&& 1 <= #[trigger] ls_spec(p) < SCALE
                &&& in_range(p, SCALE as int)
                &&& r.x as int == fxd(p.x as int, vlen(p))
                &&& r.y as int == fxd(p.y as int, vlen(p))
                &&& r.z as int == fxd(p.z as int, vlen(p))
            },
            in_range(r, 2 * SCALE as int),
    {
        let p = Vec3::random_in_unit_sphere();
        let r = p.unit();
        proof {
            assert(1 <= ls_spec(p) < SCALE && in_range(p, SCALE as int)
                && r.x as int == fxd(p.x as int, vlen(p))
                && r.y as int == fxd(p.y as int, vlen(p))
                && r.z as int == fxd(p.z as int, vlen(p)));
        }
        r
    }

    /// Returns the squared length of a vector
    pub fn length_squared(&self) -> (r: i128)
        requires
            in_range(*self, MUL_LIM as int),
        ensures
            r as int == ls_spec(*self),
            r >= 0,
    {
        proof {
            lemma_ls_terms(*self);
            lemma_fxm_bound(self.x as int, self.x as int, MUL_LIM as int, MUL_LIM as int);
            lemma_fxm_bound(self.y as int, self.y as int, MUL_LIM as int, MUL_LIM as int);
            lemma_fxm_bound(self.z as int, self.z as int, MUL_LIM as int, MUL_LIM as int);
        }
        fx_mul(self.x, self.x) + fx_mul(self.y, self.y) + fx_mul(self.z, self.z)
    }

    /// Returns the length of a vector
    pub fn length(&self) -> (r: i128)
        requires
            in_range(*self, VLEN_LIM as int),
        ensures
            r as int == vlen(*self),
            is_sqrt(r as int, ls_spec(*self) * SCALE as int),
            0 <= r <= MUL_LIM,
    {
        proof {
            lemma_ls_terms(*self);
            lemma_fxm_bound(self.x as int, self.x as int, VLEN_LIM as int, VLEN_LIM as int);
            lemma_fxm_bound(self.y as int, self.y as int, VLEN_LIM as int, VLEN_LIM as int);
            lemma_fxm_bound(self.z as int, self.z as int, VLEN_LIM as int, VLEN_LIM as int);
        }
        let ls = self.length_squared();
        fx_sqrt(ls)
    }

    /// Returns the dot product of two vectors
    pub fn dot(u: &Vec3, v: &Vec3) -> (r: i128)
        requires
            in_range(*u, MUL_LIM as int),
            in_range(*v, MUL_LIM as int),
        ensures
            r as int == dot_spec(*u, *v),
    {
        proof {
            lemma_fxm_bound(u.x as int, v.x as int, MUL_LIM as int, MUL_LIM as int);
            lemma_fxm_bound(u.y as int, v.y as int, MUL_LIM as int, MUL_LIM as int);
            lemma_fxm_bound(u.z as int, v.z as int, MUL_LIM as int, MUL_LIM as int);
        }
        fx_mul(u.x, v.x) + fx_mul(u.y, v.y) + fx_mul(u.z, v.z)
    }

    /// Returns the cross product of two vectors
    pub fn cross(u: &Vec3, v: &Vec3) -> (r: Vec3)
        requires
            in_range(*u, MUL_LIM as int),
            in_range(*v, MUL_LIM as int),
        ensures
            r.x as int == fxm(u.y as int, v.z as int) - fxm(u.z as int, v.y as int),
            r.y as int == fxm(u.z as int, v.x as int) - fxm(u.x as int, v.z as int),
            r.z as int == fxm(u.x as int, v.y as int) - fxm(u.y as int, v.x as int),
    {
        proof {
            lemma_fxm_bound(u.y as int, v.z as int, MUL_LIM as int, MUL_LIM as int);
            lemma_fxm_bound(u.z as int, v.y as int, MUL_LIM as int, MUL_LIM as int);
            lemma_fxm_bound(u.z as int, v.x as int, MUL_LIM as int, MUL_LIM as int);
            lemma_fxm_bound(u.x as int, v.z as int, MUL_LIM as int, MUL_LIM as int);
            lemma_fxm_bound(u.x as int, v.y as int, MUL_LIM as int, MUL_LIM as int);
            lemma_fxm_bound(u.y as int, v.x as int, MUL_LIM as int, MUL_LIM as int);
        }
        Vec3 {
            x: fx_mul(u.y, v.z) - fx_mul(u.z, v.y),
            y: fx_mul(u.z, v.x) - fx_mul(u.x, v.z),
            z: fx_mul(u.x, v.y) - fx_mul(u.y, v.x),
        }
    }

    /// Returns the unit vector
    pub fn unit(self) -> (r: Vec3)
        requires
            in_range(self, VLEN_LIM as int),
            1 <= ls_spec(self),
        ensures
            r.x as int == fxd(self.x as int, vlen(self)),
            r.y as int == fxd(self.y as int, vlen(self)),
            r.z as int == fxd(self.z as int, vlen(self)),
            in_range(r, 2 * SCALE as int),
    {
        proof {
            lemma_ls_terms(self);
            lemma_unit_scalar(self.x as int, ls_spec(self));
            lemma_unit_scalar(self.y as int, ls_spec(self));
            lemma_unit_scalar(self.z as int, ls_spec(self));
        }
        let len = self.length();
        Vec3 {
            x: fx_div(self.x, len),
            y: fx_div(self.y, len),
            z: fx_div(self.z, len),
        }
    }

    /// Returns true if all components of the vector are near zero, that is,
    /// below the granularity of the fixed-point scale
    pub fn near_zero(&self) -> (r: bool)
        ensures
            r == (self.x == 0 && self.y == 0 && self.z == 0),
    {
        self.x == 0 && self.y == 0 && self.z == 0
    }

    /// Whether every component's magnitude stays within the given bound.
    pub fn in_envelope(&self, b: i128) -> (r: bool)
        requires
            b >= 0,
        ensures
            r == in_range(*self, b as int),
    {
        -b <= self.x && self.x <= b && -b <= self.y && self.y <= b
            && -b <= self.z && self.z <= b
    }

    /// The component along the given axis (0, 1 or 2).
    pub fn get(&self, axis: usize) -> (r: i128)
        requires
            axis < 3,
        ensures
            r as int == comp(*self, axis as int),
    {
        if axis == 0 { self.x } else if axis == 1 { self.y } else { self.z }
    }

    /// Vector addition
    pub fn add(self, rhs: Vec3) -> (r: Vec3)
        requires
            in_range(self, FXD_LIM as int),
            in_range(rhs, FXD_LIM as int),
        ensures
            r.x as int == self.x + rhs.x,
            r.y as int == self.y + rhs.y,
            r.z as int == self.z + rhs.z,
    {
        Vec3 { x: self.x + rhs.x, y: self.y + rhs.y, z: self.z + rhs.z }
    }

    /// Vector negation
    pub fn neg(self) -> (r: Vec3)
        requires
            in_range(self, FXD_LIM as int),
        ensures
            r.x as int == -(self.x as int),
            r.y as int == -(self.y as int),
            r.z as int == -(self.z as int),
    {
        Vec3 { x: -self.x, y: -self.y, z: -self.z }
    }

    /// Vector subtraction
    pub fn sub(self, rhs: Vec3) -> (r: Vec3)
        requires
            in_range(self, FXD_LIM as int),
            in_range(rhs, FXD_LIM as int),
        ensures
            r.x as int == self.x - rhs.x,
            r.y as int == self.y - rhs.y,
            r.z as int == self.z - rhs.z,
    {
        Vec3 { x: self.x - rhs.x, y: self.y - rhs.y, z: self.z - rhs.z }
    }

    /// Element-wise multiplication of two vectors
    pub fn mul(self, rhs: Vec3) -> (r: Vec3)
        requires
            in_range(self, MUL_LIM as int),
            in_range(rhs, MUL_LIM as int),
        ensures
            r.x as int == fxm(self.x as int, rhs.x as int),
            r.y as int == fxm(self.y as int, rhs.y as int),
            r.z as int == fxm(self.z as int, rhs.z as int),
    {
        Vec3 { x: fx_mul(self.x, rhs.x), y: fx_mul(self.y, rhs.y), z: fx_mul(self.z, rhs.z) }
    }

    /// Multiplication of a vector by a scalar value
    pub fn mul_s(self, rhs: i128) -> (r: Vec3)
        requires
            in_range(self, MUL_LIM as int),
            absi(rhs as int) <= MUL_LIM as int,
        ensures
            r.x as int == fxm(self.x as int, rhs as int),
            r.y as int == fxm(self.y as int, rhs as int),
            r.z as int == fxm(self.z as int, rhs as int),
    {
        Vec3 { x: fx_mul(self.x, rhs), y: fx_mul(self.y, rhs), z: fx_mul(self.z, rhs) }
    }

    /// Division of a vector by a scalar value
    pub fn div(self, rhs: i128) -> (r: Vec3)
        requires
            rhs != 0,
            in_range(self, FXD_LIM as int),
            absi(rhs as int) <= DIV_LIM as int,
        ensures
            r.x as int == fxd(self.x as int, rhs as int),
            r.y as int == fxd(self.y as int, rhs as int),
            r.z as int == fxd(self.z as int, rhs as int),
    {
        Vec3 { x: fx_div(self.x, rhs), y: fx_div(self.y, rhs), z: fx_div(self.z, rhs) }
    }
}

} // verus!
