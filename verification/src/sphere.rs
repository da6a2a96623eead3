//! Sphere primitives and their ray intersection.

use vstd::prelude::*;

use crate::fixed::{
    abs_i, fits_i64, fmul_s, fmul_wide, lemma_fmul_abs_within, lemma_isqrt_bounds, sqrt_fx,
    sqrt_fx_s,
};
use crate::hit::{Hit, HitView};
use crate::material::Material;
use crate::ray::{Ray, RayView};
use crate::vector::{
    add_vs, comps_within, dot_s, fits_v, normalize_s, scale_vs, sub_vs, Vec3, Vec3View,
    NORMAL_BOUND,
};

verus! {

#[derive(Clone, Copy, Debug, PartialEq, Eq, Structural)]
pub struct Sphere {
    pub centre: Vec3,
    pub radius: i64,
    pub material: Material,
}

/// Intersection model: the classic quadratic solve over fixed-point
/// scalars. `m = origin - centre`, `b = dot(m, direction)`,
/// `c = dot(m, m) - radius^2`; a non-positive radius, a diverging outside
/// origin, a negative discriminant, a behind-the-origin near root, or any
/// intermediate value out of the representable range, is a miss.
pub open spec fn sphere_intersect_s(sp: Sphere, ray: RayView) -> Option<HitView> {
    let m = sub_vs(ray.origin, sp.centre@);
    if sp.radius <= 0 {
        Option::None
    } else if !fits_v(m) {
        Option::None
    } else {
        let b = dot_s(m, ray.direction);
        let cc = dot_s(m, m) - fmul_s(sp.radius as int, sp.radius as int);
        if !fits_i64(b) || !fits_i64(cc) {
            Option::None
        } else if cc > 0 && b > 0 {
            Option::None
        } else {
            let disc = fmul_s(b, b) - cc;
            if !fits_i64(disc) || disc < 0 {
                Option::None
            } else {
                let dist = -b - sqrt_fx_s(disc);
                if !fits_i64(dist) || dist < 0 {
                    Option::None
                } else {
                    let pos = add_vs(ray.origin, scale_vs(ray.direction, dist));
                    if !fits_v(pos) {
                        Option::None
                    } else {
                        let nraw = sub_vs(pos, sp.centre@);
                        if !fits_v(nraw) {
                            Option::None
                        } else {
                            let n = normalize_s(nraw);
                            if !comps_within(n, NORMAL_BOUND as int) {
                                Option::None
                            } else {
                                Option::Some(
                                    HitView {
                                        distance: dist,
                                        position: pos,
                                        normal: n,
                                        material: sp.material,
                                    },
                                )
                            }
                        }
                    }
                }
            }
        }
    }
}

impl Sphere {
    /// Nearest intersection of a ray with this sphere, or `None` on a miss.
    pub fn intersect(&self, ray: &Ray) -> (h: Option<Hit>)
        ensures
            match h {
                Option::Some(hit) => {
                    &&& sphere_intersect_s(*self, ray@) == Option::Some(hit@)
                    &&& 0 <= hit@.distance
                    &&& comps_within(hit@.normal, NORMAL_BOUND as int)
                    &&& hit@.material == self.material
                },
                Option::None => sphere_intersect_s(*self, ray@) == Option::<HitView>::None,
            },
    {
        if self.radius <= 0 {
            return Option::None;
        }
        let mx: i128 = ray.origin.x as i128 - self.centre.x as i128;
        let my: i128 = ray.origin.y as i128 - self.centre.y as i128;
        let mz: i128 = ray.origin.z as i128 - self.centre.z as i128;
        if !fits128(mx) || !fits128(my) || !fits128(mz) {
            return Option::None;
        }
        let m = Vec3 { x: mx as i64, y: my as i64, z: mz as i64 };
        let b128: i128 = m.dot_wide(ray.direction);
        let mm: i128 = m.magnitude2_wide();
        let rr: i128 = fmul_wide(self.radius, self.radius);
        let cc128: i128 = mm - rr;
        if !fits128(b128) || !fits128(cc128) {
            return Option::None;
        }
        let b: i64 = b128 as i64;
        let cc: i64 = cc128 as i64;
        if cc > 0 && b > 0 {
            return Option::None;
        }
        let bb: i128 = fmul_wide(b, b);
        let disc128: i128 = bb - cc as i128;
        if !fits128(disc128) || disc128 < 0 {
            return Option::None;
        }
        let disc: i64 = disc128 as i64;
        let sq: i64 = sqrt_fx(disc);
        proof {
            lemma_isqrt_bounds((disc as int * 65536) as nat);
        }
        let dist128: i128 = -(b as i128) - sq as i128;
        if !fits128(dist128) || dist128 < 0 {
            return Option::None;
        }
        let dist: i64 = dist128 as i64;
        proof {
            lemma_fmul_abs_within(
                ray@.direction.x,
                dist as int,
                0x8000_0000_0000_0000,
                0x8000_0000_0000_0000,
            );
            lemma_fmul_abs_within(
                ray@.direction.y,
                dist as int,
                0x8000_0000_0000_0000,
                0x8000_0000_0000_0000,
            );
            lemma_fmul_abs_within(
                ray@.direction.z,
                dist as int,
                0x8000_0000_0000_0000,
                0x8000_0000_0000_0000,
            );
        }
        let px: i128 = ray.origin.x as i128 + fmul_wide(ray.direction.x, dist);
        let py: i128 = ray.origin.y as i128 + fmul_wide(ray.direction.y, dist);
        let pz: i128 = ray.origin.z as i128 + fmul_wide(ray.direction.z, dist);
        if !fits128(px) || !fits128(py) || !fits128(pz) {
            return Option::None;
        }
        let pos = Vec3 { x: px as i64, y: py as i64, z: pz as i64 };
        let nx: i128 = pos.x as i128 - self.centre.x as i128;
        let ny: i128 = pos.y as i128 - self.centre.y as i128;
        let nz: i128 = pos.z as i128 - self.centre.z as i128;
        if !fits128(nx) || !fits128(ny) || !fits128(nz) {
            return Option::None;
        }
        let nraw = Vec3 { x: nx as i64, y: ny as i64, z: nz as i64 };
        let n: Vec3 = nraw.normalize();
        if n.x < -NORMAL_BOUND || n.x > NORMAL_BOUND || n.y < -NORMAL_BOUND || n.y > NORMAL_BOUND
            || n.z < -NORMAL_BOUND || n.z > NORMAL_BOUND {
            return Option::None;
        }
        Option::Some(Hit::new(dist, pos, n, self.material))
    }
}

/// Whether an `i128` value is representable as an `i64` scalar.
pub fn fits128(x: i128) -> (b: bool)
    ensures
        b == fits_i64(x as int),
{
    x >= i64::MIN as i128 && x <= i64::MAX as i128
}

} // verus!
