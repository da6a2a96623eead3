//! Three-component vectors and points over fixed-point scalars.

use vstd::prelude::*;

use crate::fixed::{
    abs_i, fdiv_s, fits_i64, fmul, fmul_s, fmul_wide, isqrt, isqrt_s, lemma_fmul_abs_within,
    lemma_fmul_one, lemma_fmul_self_nonneg, lemma_isqrt_bounds, lemma_qtrunc_abs_le, mul_wide,
    qtrunc, tdiv128, ONE, SCALE,
};

verus! {

/// Any vector whose components all lie within this bound, in magnitude, can
/// be normalized without leaving the representable range.
pub const NORM_DOM: i64 = 0x4000_0000_0000;

/// Bound kept on the components of every hit normal handed to shading.
pub const NORMAL_BOUND: i64 = 0x20_0000_0000;

#[derive(Clone, Copy, Debug, PartialEq, Eq, Structural)]
pub struct Vec3 {
    pub x: i64,
    pub y: i64,
    pub z: i64,
}

/// Mathematical view of a vector: its components as unbounded integers.
pub ghost struct Vec3View {
    pub x: int,
    pub y: int,
    pub z: int,
}

impl View for Vec3 {
    type V = Vec3View;

    open spec fn view(&self) -> Vec3View {
        Vec3View { x: self.x as int, y: self.y as int, z: self.z as int }
    }
}

pub open spec fn add_vs(u: Vec3View, v: Vec3View) -> Vec3View {
    Vec3View { x: u.x + v.x, y: u.y + v.y, z: u.z + v.z }
}

pub open spec fn sub_vs(u: Vec3View, v: Vec3View) -> Vec3View {
    Vec3View { x: u.x - v.x, y: u.y - v.y, z: u.z - v.z }
}

pub open spec fn neg_vs(u: Vec3View) -> Vec3View {
    Vec3View { x: -u.x, y: -u.y, z: -u.z }
}

/// Fixed-point scaling of every component by one scalar.
pub open spec fn scale_vs(u: Vec3View, s: int) -> Vec3View {
    Vec3View { x: fmul_s(u.x, s), y: fmul_s(u.y, s), z: fmul_s(u.z, s) }
}

/// Fixed-point dot product.
pub open spec fn dot_s(u: Vec3View, v: Vec3View) -> int {
    fmul_s(u.x, v.x) + fmul_s(u.y, v.y) + fmul_s(u.z, v.z)
}

/// Fixed-point cross product.
pub open spec fn cross_s(u: Vec3View, v: Vec3View) -> Vec3View {
    Vec3View {
        x: fmul_s(u.y, v.z) - fmul_s(u.z, v.y),
        y: fmul_s(u.z, v.x) - fmul_s(u.x, v.z),
        z: fmul_s(u.x, v.y) - fmul_s(u.y, v.x),
    }
}

/// Whether every component is representable as an `i64` scalar.
pub open spec fn fits_v(u: Vec3View) -> bool {
    &&& fits_i64(u.x)
    &&& fits_i64(u.y)
    &&& fits_i64(u.z)
}

/// Whether every component lies within `bound`, in magnitude.
pub open spec fn comps_within(u: Vec3View, bound: int) -> bool {
    &&& abs_i(u.x) <= bound
    &&& abs_i(u.y) <= bound
    &&& abs_i(u.z) <= bound
}

/// Normalization model. A vector with a component outside `NORM_DOM`, or
/// whose fixed-point squared magnitude truncates to zero, is returned
/// unchanged; anything else is divided by the fixed-point magnitude
/// `isqrt(|v|^2 * SCALE)`.
pub open spec fn normalize_s(v: Vec3View) -> Vec3View {
    if !comps_within(v, NORM_DOM as int) {
        v
    } else {
        let m2 = dot_s(v, v);
        if m2 == 0 {
            v
        } else {
            let m = isqrt_s((m2 * (SCALE as int)) as nat) as int;
            Vec3View { x: fdiv_s(v.x, m), y: fdiv_s(v.y, m), z: fdiv_s(v.z, m) }
        }
    }
}

/// Mirror-reflection model: `v - 2 * dot(v, n) * n`, or `None` when an
/// intermediate value leaves the representable range.
pub open spec fn reflect_s(v: Vec3View, n: Vec3View) -> Option<Vec3View> {
    let d = dot_s(v, n);
    if !fits_i64(d) {
        Option::None
    } else {
        let rx = v.x - 2 * fmul_s(d, n.x);
        let ry = v.y - 2 * fmul_s(d, n.y);
        let rz = v.z - 2 * fmul_s(d, n.z);
        if fits_i64(rx) && fits_i64(ry) && fits_i64(rz) {
            Option::Some(Vec3View { x: rx, y: ry, z: rz })
        } else {
            Option::None
        }
    }
}

impl Vec3 {
    pub fn new(x: i64, y: i64, z: i64) -> (v: Vec3)
        ensures
            v@ == (Vec3View { x: x as int, y: y as int, z: z as int }),
    {
        Vec3 { x, y, z }
    }

    pub fn zero() -> (v: Vec3)
        ensures
            v@ == (Vec3View { x: 0, y: 0, z: 0 }),
    {
        Vec3 { x: 0, y: 0, z: 0 }
    }

    pub fn add(self, other: Vec3) -> (v: Vec3)
        requires
            fits_i64(self@.x + other@.x),
            fits_i64(self@.y + other@.y),
            fits_i64(self@.z + other@.z),
        ensures
            v@ == add_vs(self@, other@),
    {
        Vec3 { x: self.x + other.x, y: self.y + other.y, z: self.z + other.z }
    }

    pub fn sub(self, other: Vec3) -> (v: Vec3)
        requires
            fits_i64(self@.x - other@.x),
            fits_i64(self@.y - other@.y),
            fits_i64(self@.z - other@.z),
        ensures
            v@ == sub_vs(self@, other@),
    {
        Vec3 { x: self.x - other.x, y: self.y - other.y, z: self.z - other.z }
    }

    pub fn neg(self) -> (v: Vec3)
        requires
            self@.x != i64::MIN as int,
            self@.y != i64::MIN as int,
            self@.z != i64::MIN as int,
        ensures
            v@ == neg_vs(self@),
    {
        Vec3 { x: -self.x, y: -self.y, z: -self.z }
    }

    pub fn scale(self, s: i64) -> (v: Vec3)
        requires
            fits_i64(fmul_s(self@.x, s as int)),
            fits_i64(fmul_s(self@.y, s as int)),
            fits_i64(fmul_s(self@.z, s as int)),
        ensures
            v@ == scale_vs(self@, s as int),
    {
        Vec3 { x: fmul(self.x, s), y: fmul(self.y, s), z: fmul(self.z, s) }
    }

    /// Fixed-point dot product, widened so it needs no precondition.
    pub fn dot_wide(self, other: Vec3) -> (r: i128)
        ensures
            r as int == dot_s(self@, other@),
            abs_i(r as int) <= 0xC000_0000_0000_0000_0000_0000_0000,
    {
        let px: i128 = fmul_wide(self.x, other.x);
        let py: i128 = fmul_wide(self.y, other.y);
        let pz: i128 = fmul_wide(self.z, other.z);
        proof {
            lemma_fmul_abs_within(self@.x, other@.x, 0x8000_0000_0000_0000, 0x8000_0000_0000_0000);
            lemma_fmul_abs_within(self@.y, other@.y, 0x8000_0000_0000_0000, 0x8000_0000_0000_0000);
            lemma_fmul_abs_within(self@.z, other@.z, 0x8000_0000_0000_0000, 0x8000_0000_0000_0000);
        }
        px + py + pz
    }

    /// Fixed-point dot product of two vectors whose result is representable.
    pub fn dot(self, other: Vec3) -> (r: i64)
        requires
            fits_i64(dot_s(self@, other@)),
        ensures
            r as int == dot_s(self@, other@),
    {
        let w: i128 = self.dot_wide(other);
        w as i64
    }

    /// Fixed-point cross product.
    pub fn cross(self, other: Vec3) -> (v: Option<Vec3>)
        ensures
            match v {
                Option::Some(c) => {
                    &&& c@ == cross_s(self@, other@)
                    &&& fits_i64(cross_s(self@, other@).x)
                    &&& fits_i64(cross_s(self@, other@).y)
                    &&& fits_i64(cross_s(self@, other@).z)
                },
                Option::None => !(fits_i64(cross_s(self@, other@).x) && fits_i64(
                    cross_s(self@, other@).y,
                ) && fits_i64(cross_s(self@, other@).z)),
            },
    {
        proof {
            lemma_fmul_abs_within(self@.y, other@.z, 0x8000_0000_0000_0000, 0x8000_0000_0000_0000);
            lemma_fmul_abs_within(self@.z, other@.y, 0x8000_0000_0000_0000, 0x8000_0000_0000_0000);
            lemma_fmul_abs_within(self@.z, other@.x, 0x8000_0000_0000_0000, 0x8000_0000_0000_0000);
            lemma_fmul_abs_within(self@.x, other@.z, 0x8000_0000_0000_0000, 0x8000_0000_0000_0000);
            lemma_fmul_abs_within(self@.x, other@.y, 0x8000_0000_0000_0000, 0x8000_0000_0000_0000);
            lemma_fmul_abs_within(self@.y, other@.x, 0x8000_0000_0000_0000, 0x8000_0000_0000_0000);
        }
        let cx: i128 = fmul_wide(self.y, other.z) - fmul_wide(self.z, other.y);
        let cy: i128 = fmul_wide(self.z, other.x) - fmul_wide(self.x, other.z);
        let cz: i128 = fmul_wide(self.x, other.y) - fmul_wide(self.y, other.x);
        if cx >= i64::MIN as i128 && cx <= i64::MAX as i128 && cy >= i64::MIN as i128 && cy
            <= i64::MAX as i128 && cz >= i64::MIN as i128 && cz <= i64::MAX as i128 {
            Option::Some(Vec3 { x: cx as i64, y: cy as i64, z: cz as i64 })
        } else {
            Option::None
        }
    }

    /// Fixed-point squared magnitude, widened.
    pub fn magnitude2_wide(self) -> (r: i128)
        ensures
            r as int == dot_s(self@, self@),
            r >= 0,
            r as int <= 0xC000_0000_0000_0000_0000_0000_0000,
    {
        proof {
            lemma_fmul_self_nonneg(self@.x);
            lemma_fmul_self_nonneg(self@.y);
            lemma_fmul_self_nonneg(self@.z);
        }
        self.dot_wide(self)
    }

    /// Normalization: divides by the fixed-point magnitude, leaving
    /// out-of-domain and zero-magnitude vectors unchanged.
    pub fn normalize(self) -> (v: Vec3)
        ensures
            v@ == normalize_s(self@),
            v@ == self@ || comps_within(v@, 0x4000_0000_0000_0000),
    {
        if !(self.x >= -NORM_DOM && self.x <= NORM_DOM && self.y >= -NORM_DOM && self.y <= NORM_DOM
            && self.z >= -NORM_DOM && self.z <= NORM_DOM) {
            return self;
        }
        let m2: i128 = self.magnitude2_wide();
        if m2 == 0 {
            return self;
        }
        proof {
            lemma_fmul_abs_within(self@.x, self@.x, NORM_DOM as int, NORM_DOM as int);
            lemma_fmul_abs_within(self@.y, self@.y, NORM_DOM as int, NORM_DOM as int);
            lemma_fmul_abs_within(self@.z, self@.z, NORM_DOM as int, NORM_DOM as int);
        }
        let m2u: u128 = m2 as u128;
        let scale_u: u128 = SCALE as u128;
        proof {
            assert(m2u * scale_u <= 0x3000_0000_0000_0000_0000_0000 * 0x1_0000)
                by (nonlinear_arith)
                requires
                    m2u <= 0x3000_0000_0000_0000_0000_0000,
                    scale_u == 0x1_0000,
            ;
        }
        let mx: u128 = m2u * scale_u;
        let m: u64 = isqrt(mx);
        proof {
            lemma_isqrt_bounds(mx as nat);
            assert(isqrt_s(mx as nat) > 0) by (nonlinear_arith)
                requires
                    mx as nat >= 0x1_0000,
                    (isqrt_s(mx as nat) + 1) * (isqrt_s(mx as nat) + 1) > mx as nat,
            ;
        }
        let nx: i64 = norm_div(self.x, m);
        let ny: i64 = norm_div(self.y, m);
        let nz: i64 = norm_div(self.z, m);
        Vec3 { x: nx, y: ny, z: nz }
    }
}

/// One component of a normalization: `c * SCALE / m`, truncated.
fn norm_div(c: i64, m: u64) -> (r: i64)
    requires
        m > 0,
        abs_i(c as int) <= NORM_DOM as int,
    ensures
        r as int == fdiv_s(c as int, m as int),
        abs_i(r as int) <= 0x4000_0000_0000_0000,
{
    let p: i128 = mul_wide(c, SCALE);
    let q: i128 = tdiv128(p, m as i128);
    proof {
        lemma_qtrunc_abs_le(p as int, m as int);
        assert(abs_i(p as int) == abs_i(c as int) * 65536) by (nonlinear_arith)
            requires
                p as int == (c as int) * 65536,
        ;
        assert(abs_i(c as int) * 65536 <= 0x4000_0000_0000 * 65536) by (nonlinear_arith)
            requires
                abs_i(c as int) <= 0x4000_0000_0000,
        ;
    }
    q as i64
}

/// Reflection of `v` about `n`: `v - 2 * dot(v, n) * n`, with `None` when an
/// intermediate value leaves the representable range.
pub fn reflect(v: Vec3, n: Vec3) -> (r: Option<Vec3>)
    ensures
        match r {
            Option::Some(w) => reflect_s(v@, n@) == Option::Some(w@),
            Option::None => reflect_s(v@, n@) == Option::<Vec3View>::None,
        },
{
    let d128: i128 = v.dot_wide(n);
    if d128 < i64::MIN as i128 || d128 > i64::MAX as i128 {
        return Option::None;
    }
    let d: i64 = d128 as i64;
    let px: i128 = fmul_wide(d, n.x);
    let py: i128 = fmul_wide(d, n.y);
    let pz: i128 = fmul_wide(d, n.z);
    proof {
        lemma_fmul_abs_within(d as int, n@.x, 0x8000_0000_0000_0000, 0x8000_0000_0000_0000);
        lemma_fmul_abs_within(d as int, n@.y, 0x8000_0000_0000_0000, 0x8000_0000_0000_0000);
        lemma_fmul_abs_within(d as int, n@.z, 0x8000_0000_0000_0000, 0x8000_0000_0000_0000);
    }
    let rx: i128 = (v.x as i128) - 2 * px;
    let ry: i128 = (v.y as i128) - 2 * py;
    let rz: i128 = (v.z as i128) - 2 * pz;
    if rx >= i64::MIN as i128 && rx <= i64::MAX as i128 && ry >= i64::MIN as i128 && ry
        <= i64::MAX as i128 && rz >= i64::MIN as i128 && rz <= i64::MAX as i128 {
        Option::Some(Vec3 { x: rx as i64, y: ry as i64, z: rz as i64 })
    } else {
        Option::None
    }
}

/// Mirror law for a flat mirror facing `+z`: reflecting any incoming
/// direction about the exact unit normal `(0, 0, ONE)` flips the sign of the
/// `z` component and keeps `x` and `y`, exactly. In particular the incoming
/// direction `(0, 0, -ONE)` reflects to `(0, 0, ONE)`.
pub proof fn lemma_reflect_flat_mirror(v: Vec3View)
    requires
        comps_within(v, 0x1000_0000_0000_0000),
    ensures
        reflect_s(v, Vec3View { x: 0, y: 0, z: ONE as int }) == Option::Some(
            Vec3View { x: v.x, y: v.y, z: -v.z },
        ),
{
    let n = Vec3View { x: 0, y: 0, z: ONE as int };
    assert(fmul_s(v.x, 0) == 0);
    assert(fmul_s(v.y, 0) == 0);
    lemma_fmul_one(v.z);
    let d = dot_s(v, n);
    assert(d == v.z);
    assert(fmul_s(d, 0) == 0);
    lemma_fmul_one(d);
}

} // verus!
