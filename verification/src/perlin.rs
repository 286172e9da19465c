//! Gradient-lattice noise over the fixed-point grid.
use vstd::prelude::*;
use vstd::pervasive::VecAdditionalExecFns;
use crate::fx::{absi, fx_mul, floor_div, floor_mod, raw_div, lemma_fxm_within};
use crate::vec3::{Vec3, in_range};
use crate::{SCALE, random_int};

verus! {

/// Number of lattice gradients and permutation entries.
pub const PERLIN_POINT_COUNT: usize = 256;

/// Largest component magnitude `noise` accepts for a sample point.
pub const NOISE_LIM: i128 = 1125899906842624;

/// Gradient noise state: a table of random gradients and one shuffled
/// permutation per axis.
#[derive(Clone, PartialEq, Eq, Debug)]
pub struct Perlin {
    pub random_vec: Vec<Vec3>,
    pub perm_x: Vec<i32>,
    pub perm_y: Vec<i32>,
    pub perm_z: Vec<i32>,
}

/// One permutation table holds 256 entries, each an index below 256.
pub open spec fn perm_wf(p: Seq<i32>) -> bool {
    p.len() == 256 && forall|i: int| 0 <= i < 256 ==> 0 <= #[trigger] p[i] < 256
}

/// The tables have their full size, gradients no longer than one unit and
/// permutation entries in range.
pub open spec fn wf_perlin(p: Perlin) -> bool {
    &&& p.random_vec@.len() == 256
    &&& forall|i: int| 0 <= i < 256 ==> in_range(#[trigger] p.random_vec@[i], SCALE as int)
    &&& perm_wf(p.perm_x@)
    &&& perm_wf(p.perm_y@)
    &&& perm_wf(p.perm_z@)
}

impl Perlin {
    /// Builds the gradient and permutation tables.
    pub fn new() -> (r: Perlin)
        ensures
            wf_perlin(r),
    {
        let mut random_vec: Vec<Vec3> = Vec::new();
        let mut k: usize = 0;
        while k < 256
            invariant
                k <= 256,
                random_vec@.len() == k,
                forall|i: int| 0 <= i < k ==> in_range(#[trigger] random_vec@[i], SCALE as int),
            decreases 256 - k,
        {
            random_vec.push(Vec3::random(-SCALE, SCALE));
            k = k + 1;
        }
        let perm_x = Perlin::generate_perm();
        let perm_y = Perlin::generate_perm();
        let perm_z = Perlin::generate_perm();
        Perlin { random_vec, perm_x, perm_y, perm_z }
    }

    /// Builds one shuffled permutation table.
    pub fn generate_perm() -> (r: Vec<i32>)
        ensures
            perm_wf(r@),
    {
        let mut p: Vec<i32> = Vec::new();
        let mut i: usize = 0;
        while i < 256
            invariant
                i <= 256,
                p@.len() == i,
                forall|k: int| 0 <= k < i ==> 0 <= #[trigger] p@[k] < 256,
            decreases 256 - i,
        {
            p.push(i as i32);
            i = i + 1;
        }
        Perlin::permute(&mut p);
        p
    }

    /// Shuffles a permutation table in place.
    pub fn permute(p: &mut Vec<i32>)
        requires
            perm_wf(old(p)@),
        ensures
            perm_wf(final(p)@),
    {
        let mut i: usize = 254;
        while i >= 1
            invariant
                i <= 254,
                perm_wf(p@),
            decreases i,
        {
            let target = random_int(0, i as i32) as usize;
            let a = p[i];
            let b = p[target];
            p.set(i, b);
            p.set(target, a);
            i = i - 1;
        }
    }

    /// The gradient at a lattice corner, found through the per-axis
    /// permutations.
    fn corner(&self, i: i128, j: i128, k: i128) -> (r: Vec3)
        requires
            wf_perlin(*self),
            absi(i as int) <= 2 * NOISE_LIM as int,
            absi(j as int) <= 2 * NOISE_LIM as int,
            absi(k as int) <= 2 * NOISE_LIM as int,
        ensures
            in_range(r, SCALE as int),
    {
        let mi = floor_mod(i, 256) as usize;
        let mj = floor_mod(j, 256) as usize;
        let mk = floor_mod(k, 256) as usize;
        let px = self.perm_x[mi];
        let py = self.perm_y[mj];
        let pz = self.perm_z[mk];
        proof {
            assert(0 <= (px ^ py ^ pz) < 256) by (bit_vector)
                requires 0 <= px < 256, 0 <= py < 256, 0 <= pz < 256;
        }
        self.random_vec[(px ^ py ^ pz) as usize]
    }

    /// Samples the noise field at a point.
    pub fn noise(&self, p: &Vec3) -> (r: i128)
        requires
            wf_perlin(*self),
            in_range(*p, NOISE_LIM as int),
        ensures
            absi(r as int) <= 2048 * SCALE as int,
    {
        let i = floor_div(p.x, SCALE);
        let j = floor_div(p.y, SCALE);
        let k = floor_div(p.z, SCALE);
        proof {
            lemma_floor_parts(p.x as int, i as int);
            lemma_floor_parts(p.y as int, j as int);
            lemma_floor_parts(p.z as int, k as int);
            assert(absi(i as int) <= NOISE_LIM as int) by (nonlinear_arith)
                requires
                    absi(i as int) * 65536 <= absi(p.x as int) + 65536,
                    absi(p.x as int) <= NOISE_LIM as int,
                    NOISE_LIM == 1125899906842624i128;
            assert(absi(j as int) <= NOISE_LIM as int) by (nonlinear_arith)
                requires
                    absi(j as int) * 65536 <= absi(p.y as int) + 65536,
                    absi(p.y as int) <= NOISE_LIM as int,
                    NOISE_LIM == 1125899906842624i128;
            assert(absi(k as int) <= NOISE_LIM as int) by (nonlinear_arith)
                requires
                    absi(k as int) * 65536 <= absi(p.z as int) + 65536,
                    absi(p.z as int) <= NOISE_LIM as int,
                    NOISE_LIM == 1125899906842624i128;
        }
        let u = p.x - i * SCALE;
        let v = p.y - j * SCALE;
        let w = p.z - k * SCALE;
        let c000 = self.corner(i, j, k);
        let c001 = self.corner(i, j, k + 1);
        let c010 = self.corner(i, j + 1, k);
        let c011 = self.corner(i, j + 1, k + 1);
        let c100 = self.corner(i + 1, j, k);
        let c101 = self.corner(i + 1, j, k + 1);
        let c110 = self.corner(i + 1, j + 1, k);
        let c111 = self.corner(i + 1, j + 1, k + 1);
        Perlin::trilinear_interpolate(c000, c001, c010, c011, c100, c101, c110, c111, u, v, w)
    }

    /// Blends the eight corner gradients by smoothed fractional weights.
    #[verifier::rlimit(50)]
    pub fn trilinear_interpolate(
        c000: Vec3, c001: Vec3, c010: Vec3, c011: Vec3,
        c100: Vec3, c101: Vec3, c110: Vec3, c111: Vec3,
        u: i128, v: i128, w: i128,
    ) -> (r: i128)
        requires
            in_range(c000, SCALE as int), in_range(c001, SCALE as int),
            in_range(c010, SCALE as int), in_range(c011, SCALE as int),
            in_range(c100, SCALE as int), in_range(c101, SCALE as int),
            in_range(c110, SCALE as int), in_range(c111, SCALE as int),
            0 <= u < SCALE,
            0 <= v < SCALE,
            0 <= w < SCALE,
        ensures
            absi(r as int) <= 2048 * SCALE as int,
    {
        let uu = smooth(u);
        let vv = smooth(v);
        let ww = smooth(w);
        let t000 = tri_term(SCALE - uu, SCALE - vv, SCALE - ww, c000, u, v, w);
        let t001 = tri_term(SCALE - uu, SCALE - vv, ww, c001, u, v, w - SCALE);
        let t010 = tri_term(SCALE - uu, vv, SCALE - ww, c010, u, v - SCALE, w);
        let t011 = tri_term(SCALE - uu, vv, ww, c011, u, v - SCALE, w - SCALE);
        let t100 = tri_term(uu, SCALE - vv, SCALE - ww, c100, u - SCALE, v, w);
        let t101 = tri_term(uu, SCALE - vv, ww, c101, u - SCALE, v, w - SCALE);
        let t110 = tri_term(uu, vv, SCALE - ww, c110, u - SCALE, v - SCALE, w);
        let t111 = tri_term(uu, vv, ww, c111, u - SCALE, v - SCALE, w - SCALE);
        t000 + t001 + t010 + t011 + t100 + t101 + t110 + t111
    }

    /// Sums octaves of noise at doubling frequencies and halving weights.
    pub fn turbulence(&self, p: &Vec3, depth: i32) -> (r: i128)
        requires
            wf_perlin(*self),
            in_range(*p, 1099511627776),
            0 <= depth <= 7,
        ensures
            0 <= r <= 16384 * SCALE as int,
    {
        let mut accum: i128 = 0;
        let mut temp_p = *p;
        let mut weight: i128 = SCALE;
        let mut d: i32 = 0;
        while d < depth
            invariant
                0 <= d <= depth <= 7,
                0 <= weight <= SCALE,
                in_range(temp_p, 1099511627776 * pow2i(d as int)),
                absi(accum as int) <= d * 2048 * SCALE as int,
                wf_perlin(*self),
            decreases depth - d,
        {
            proof {
                lemma_pow2i_le(d as int, 7);
                assert(pow2i(0) == 1 && pow2i(1) == 2 && pow2i(2) == 4 && pow2i(3) == 8
                    && pow2i(4) == 16 && pow2i(5) == 32 && pow2i(6) == 64 && pow2i(7) == 128);
            }
            let n = self.noise(&temp_p);
            proof {
                lemma_fxm_within(weight as int, n as int, 65536, 134217728, 134217728);
            }
            accum = accum + fx_mul(weight, n);
            weight = raw_div(weight, 2);
            proof {
                crate::fx::lemma_tdiv_nonneg(weight as int, 2);
            }
            temp_p = Vec3::new(temp_p.x * 2, temp_p.y * 2, temp_p.z * 2);
            d = d + 1;
        }
        crate::fx::abs_i(accum)
    }
}

/// Two to the given small power.
pub open spec fn pow2i(d: int) -> int
    decreases d,
{
    if d <= 0 { 1 } else { 2 * pow2i(d - 1) }
}

/// The powers of two up to the seventh stay below 128.
proof fn lemma_pow2i_le(d: int, m: int)
    requires
        0 <= d <= m,
    ensures
        pow2i(d) <= pow2i(m),
        pow2i(d) >= 1,
    decreases m,
{
    if m > 0 {
        if d == m {
            lemma_pow2i_le(d - 1, m - 1);
        } else {
            lemma_pow2i_le(d, m - 1);
        }
    }
}

/// Flooring division by the scale splits a scalar into a lattice cell and a
/// fractional part within it.
proof fn lemma_floor_parts(x: int, q: int)
    requires
        q == x / SCALE as int,
    ensures
        0 <= x - q * (SCALE as int) < SCALE as int,
        absi(q) * SCALE as int <= absi(x) + SCALE as int,
{
    vstd::arithmetic::div_mod::lemma_fundamental_div_mod(x, SCALE as int);
    vstd::arithmetic::div_mod::lemma_mod_division_less_than_divisor(x, SCALE as int);
    let m = x % SCALE as int;
    assert(absi(q) * 65536 <= absi(x) + 65536) by (nonlinear_arith)
        requires
            x == q * 65536 + m,
            0 <= m < 65536,
            absi(x) == if x >= 0 { x } else { -x },
            absi(q) == if q >= 0 { q } else { -q };
}

/// The smoothing polynomial `t * t * (3 - 2 t)` on a fractional part.
fn smooth(t: i128) -> (r: i128)
    requires
        0 <= t < SCALE,
    ensures
        crate::fx::absi(r as int) <= 3 * SCALE as int,
{
    proof {
        lemma_fxm_within(t as int, t as int, 65536, 65536, 65536);
        crate::vec3::lemma_fxm_sq_nonneg(t as int);
    }
    let t2 = fx_mul(t, t);
    proof {
        lemma_fxm_within(t2 as int, 3 * SCALE as int - 2 * t as int, 65536, 196608, 196608);
    }
    let s = fx_mul(t2, 3 * SCALE - 2 * t);
    s
}

/// One weighted corner contribution to the trilinear blend.
fn tri_term(fa: i128, fb: i128, fc: i128, c: Vec3, wx: i128, wy: i128, wz: i128) -> (r: i128)
    requires
        absi(fa as int) <= 4 * SCALE as int,
        absi(fb as int) <= 4 * SCALE as int,
        absi(fc as int) <= 4 * SCALE as int,
        in_range(c, SCALE as int),
        absi(wx as int) <= SCALE as int,
        absi(wy as int) <= SCALE as int,
        absi(wz as int) <= SCALE as int,
    ensures
        absi(r as int) <= 256 * SCALE as int,
{
    proof {
        lemma_fxm_within(fa as int, fb as int, 262144, 262144, 1048576);
    }
    let fab = fx_mul(fa, fb);
    proof {
        lemma_fxm_within(fab as int, fc as int, 1048576, 262144, 4194304);
    }
    let fabc = fx_mul(fab, fc);
    proof {
        lemma_fxm_within(c.x as int, wx as int, 65536, 65536, 65536);
        lemma_fxm_within(c.y as int, wy as int, 65536, 65536, 65536);
        lemma_fxm_within(c.z as int, wz as int, 65536, 65536, 65536);
    }
    let wv = Vec3::new(wx, wy, wz);
    let dt = Vec3::dot(&c, &wv);
    proof {
        lemma_fxm_within(fabc as int, dt as int, 4194304, 196608, 12582912);
    }
    fx_mul(fabc, dt)
}

} // verus!
