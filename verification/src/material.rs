//! Shading behaviours: mirror, diffuse, checker, light and skybox.
//!
//! The recursive shading dispatch (`Material::get_colour`) lives here too;
//! it recurses into `Scene::cast_ray` with a strictly shrinking depth
//! budget.

use vstd::prelude::*;

use crate::colour::{
    black_s, channels_in_range, lerp_v, white_s, Colour, ColourView,
};
use crate::fixed::{
    abs_i, abs_u64, fmul, fmul_s, lemma_fmul_abs_within, HALF, ONE, SCALE,
};
use crate::vector::{add_vs, comps_within, normalize_s, Vec3, Vec3View, NORMAL_BOUND};
use vstd::arithmetic::div_mod::lemma_mod_multiples_vanish;

verus! {

/// Cap on the channels of emissive colours; reflective tints are capped at
/// `ONE`. Together these keep every recursively computed colour bounded.
pub const CMAX: i64 = 0x1000_0000;

#[derive(Clone, Copy, Debug, PartialEq, Eq, Structural)]
pub struct MirrorMaterial {
    pub colour: Colour,
}

#[derive(Clone, Copy, Debug, PartialEq, Eq, Structural)]
pub struct DiffuseMaterial {
    pub colour: Colour,
    pub secondary_rays: i32,
}

#[derive(Clone, Copy, Debug, PartialEq, Eq, Structural)]
pub struct CheckerMaterial {
    pub grid_size: i64,
}

#[derive(Clone, Copy, Debug, PartialEq, Eq, Structural)]
pub struct LightMaterial {
    pub colour: Colour,
}

#[derive(Clone, Copy, Debug, PartialEq, Eq, Structural)]
pub struct SkyBoxMaterial {
    pub colour_bottom: Colour,
    pub colour_top: Colour,
}

#[derive(Clone, Copy, Debug, PartialEq, Eq, Structural)]
pub enum Material {
    Mirror(MirrorMaterial),
    Diffuse(DiffuseMaterial),
    Checker(CheckerMaterial),
    Light(LightMaterial),
    SkyBox(SkyBoxMaterial),
}

/// Well-formedness of a material: reflective tints lie in `[0, ONE]`,
/// emissive colours in `[0, CMAX]`, sample counts are positive and checker
/// cells have a positive, bounded size.
pub open spec fn material_wf(m: Material) -> bool {
    match m {
        Material::Mirror(mm) => channels_in_range(mm.colour@, ONE as int),
        Material::Diffuse(dm) => channels_in_range(dm.colour@, ONE as int) && 1
            <= dm.secondary_rays,
        Material::Checker(cm) => 1 <= cm.grid_size <= 0x2000_0000_0000_0000,
        Material::Light(lm) => channels_in_range(lm.colour@, CMAX as int),
        Material::SkyBox(sm) => channels_in_range(sm.colour_bottom@, CMAX as int)
            && channels_in_range(sm.colour_top@, CMAX as int),
    }
}

/// Whether every channel of a colour lies in `[0, bound]`.
pub fn channels_ok(c: &Colour, bound: i64) -> (b: bool)
    ensures
        b == channels_in_range(c@, bound as int),
{
    c.r >= 0 && c.r <= bound && c.g >= 0 && c.g <= bound && c.b >= 0 && c.b <= bound && c.a >= 0
        && c.a <= bound
}

impl Material {
    /// Whether this material satisfies `material_wf`.
    pub fn wf_check(&self) -> (b: bool)
        ensures
            b == material_wf(*self),
    {
        match self {
            Material::Mirror(mm) => channels_ok(&mm.colour, ONE),
            Material::Diffuse(dm) => channels_ok(&dm.colour, ONE) && 1 <= dm.secondary_rays,
            Material::Checker(cm) => 1 <= cm.grid_size && cm.grid_size <= 0x2000_0000_0000_0000,
            Material::Light(lm) => channels_ok(&lm.colour, CMAX),
            Material::SkyBox(sm) => channels_ok(&sm.colour_bottom, CMAX) && channels_ok(
                &sm.colour_top,
                CMAX,
            ),
        }
    }
}

/// Colour of the checker pattern at a point: the parity of the cell indices
/// along the three axes picks white or black.
pub open spec fn checker_colour_s(p: Vec3View, grid: int) -> Colour {
    let vx = abs_i(p.x) % (2 * grid) < grid;
    let vy = abs_i(p.y) % (2 * grid) < grid;
    let vz = abs_i(p.z) % (2 * grid) < grid;
    if vx ^ vy ^ vz {
        white_s()
    } else {
        black_s()
    }
}

/// Colour of the sky in a direction: interpolates from the bottom colour to
/// the top colour by the height of the normalized direction, the
/// interpolation parameter clamped to `[0, ONE]`.
pub open spec fn skybox_colour_s(sm: SkyBoxMaterial, direction: Vec3View) -> ColourView {
    let d = normalize_s(direction);
    let t_raw = HALF + fmul_s(d.y, HALF as int);
    let t = if t_raw < 0 {
        0
    } else if t_raw > ONE {
        ONE as int
    } else {
        t_raw
    };
    lerp_v(sm.colour_bottom@, sm.colour_top@, t)
}

/// What a mirror's colour is when the bounced ray's own shading is
/// deterministic: the deterministic colour of the reflected ray, tinted by
/// the mirror.
pub open spec fn mirror_bounce_ok(
    scene: crate::scene::Scene,
    view_direction: Vec3View,
    position: Vec3View,
    normal: Vec3View,
    mm: MirrorMaterial,
    c: Colour,
) -> bool {
    match crate::vector::reflect_s(view_direction, normal) {
        Option::Some(refl) => match crate::intersectable::surface_intersect_s(
            scene.root_intersectable,
            crate::ray::RayView { origin: position, direction: refl },
        ) {
            Option::Some(h) => match shade_det(h.material, refl, h.position) {
                Option::Some(cv) => c@ == crate::colour::mul_v(cv, mm.colour@),
                Option::None => true,
            },
            Option::None => match shade_det(
                scene.background,
                refl,
                Vec3View { x: 0, y: 0, z: 0 },
            ) {
                Option::Some(cv) => c@ == crate::colour::mul_v(cv, mm.colour@),
                Option::None => true,
            },
        },
        Option::None => c == black_s(),
    }
}

/// The colour a material shades, where that colour does not depend on
/// recursive ray casting: light, checker and skybox shade deterministically,
/// mirror and diffuse do not.
pub open spec fn shade_det(m: Material, view_direction: Vec3View, position: Vec3View) -> Option<
    ColourView,
> {
    match m {
        Material::Light(lm) => Option::Some(lm.colour@),
        Material::Checker(cm) => Option::Some(checker_colour_s(position, cm.grid_size as int)@),
        Material::SkyBox(sm) => Option::Some(skybox_colour_s(sm, view_direction)),
        _ => Option::None,
    }
}

impl CheckerMaterial {
    /// The checker colour at a position.
    pub fn colour_at(&self, position: &Vec3) -> (c: Colour)
        requires
            1 <= self.grid_size <= 0x2000_0000_0000_0000,
        ensures
            c == checker_colour_s(position@, self.grid_size as int),
    {
        let g2: u64 = 2 * (self.grid_size as u64);
        let vx: bool = abs_u64(position.x) % g2 < self.grid_size as u64;
        let vy: bool = abs_u64(position.y) % g2 < self.grid_size as u64;
        let vz: bool = abs_u64(position.z) % g2 < self.grid_size as u64;
        if vx ^ vy ^ vz {
            crate::colour::white()
        } else {
            crate::colour::black()
        }
    }
}

impl SkyBoxMaterial {
    /// The sky gradient colour in a view direction.
    pub fn colour_towards(&self, direction: &Vec3) -> (c: Colour)
        requires
            channels_in_range(self.colour_bottom@, CMAX as int),
            channels_in_range(self.colour_top@, CMAX as int),
        ensures
            c@ == skybox_colour_s(*self, direction@),
    {
        let d: Vec3 = direction.normalize();
        proof {
            lemma_fmul_abs_within(d@.y, HALF as int, 0x8000_0000_0000_0000, HALF as int);
        }
        let t_raw: i64 = HALF + fmul(d.y, HALF);
        let t: i64 = if t_raw < 0 {
            0
        } else if t_raw > ONE {
            ONE
        } else {
            t_raw
        };
        self.colour_bottom.lerp(self.colour_top, t)
    }
}

/// The checker pattern repeats with period `2 * grid` along each axis, away
/// from the sign change at zero: shading at `p` and at `p + (2 * grid, 0, 0)`
/// gives the same colour whenever `p.x` does not straddle zero. (A point
/// with `-2 * grid < p.x < 0` can land in a different cell, because the cell
/// index is taken from the absolute value of the coordinate.)
pub proof fn lemma_checker_periodic(p: Vec3View, grid: int)
    requires
        1 <= grid,
        p.x >= 0 || p.x + 2 * grid <= 0,
    ensures
        checker_colour_s(Vec3View { x: p.x + 2 * grid, y: p.y, z: p.z }, grid)
            == checker_colour_s(p, grid),
{
    let m = 2 * grid;
    if p.x >= 0 {
        lemma_mod_multiples_vanish(1, p.x, m);
        assert(abs_i(p.x + m) == m * 1 + p.x);
    } else {
        lemma_mod_multiples_vanish(1, -(p.x + m), m);
        assert(abs_i(p.x) == m * 1 + -(p.x + m));
    }
}

impl Material {
    /// Shades a hit (or, for the background, a miss) of a ray at the given
    /// depth, recursing into the scene for mirror and diffuse transport.
    ///
    /// The contract pins the result exactly for the deterministic
    /// materials (via `shade_det`), and bounds every channel always.
    pub fn get_colour(
        &self,
        scene: &crate::scene::Scene,
        view_direction: &Vec3,
        position: &Vec3,
        normal: &Vec3,
        ray_depth: u8,
    ) -> (c: Colour)
        requires
            scene.wf(),
            material_wf(*self),
            comps_within(normal@, NORMAL_BOUND as int),
            ray_depth <= scene.max_ray_depth + 1,
        ensures
            channels_in_range(
                c@,
                (CMAX as int) + (scene.max_ray_depth + 3 - ray_depth) * (ONE as int),
            ),
            match shade_det(*self, view_direction@, position@) {
                Option::Some(cv) => c@ == cv,
                Option::None => true,
            },
            match *self {
                Material::Mirror(mm) => {
                    &&& (ray_depth <= scene.max_ray_depth && ray_depth < 255 ==> mirror_bounce_ok(
                        *scene,
                        view_direction@,
                        position@,
                        normal@,
                        mm,
                        c,
                    ))
                    &&& (crate::vector::reflect_s(view_direction@, normal@) is None ==> c
                        == black_s())
                },
                Material::Diffuse(dm) => exists|samples: Seq<Colour>|
                    #![trigger crate::colour::sum_v(samples)]
                    {
                        &&& samples.len() == dm.secondary_rays
                        &&& forall|j: int|
                            0 <= j < samples.len() ==> channels_in_range(
                                (#[trigger] samples[j])@,
                                scene.depth_bound(ray_depth as int),
                            )
                        &&& c@ == crate::colour::mul_v(
                            crate::colour::div_v(
                                crate::colour::sum_v(samples),
                                (dm.secondary_rays as int) * (ONE as int),
                            ),
                            dm.colour@,
                        )
                    },
                _ => true,
            },
        decreases scene.max_ray_depth + 2 - ray_depth, 2int,
    {
        let ghost gbound: int = (CMAX as int) + (scene.max_ray_depth + 3 - ray_depth) * (
        ONE as int);
        let ghost cbound: int = scene.depth_bound(ray_depth as int);
        proof {
            assert(cbound + ONE == gbound);
            assert(gbound >= CMAX + 2 * ONE);
        }
        match self {
            Material::Mirror(mm) => {
                match crate::vector::reflect(*view_direction, *normal) {
                    Option::Some(refl) => {
                        let ray = crate::ray::Ray { origin: *position, direction: refl };
                        let sub: Colour = scene.cast_ray(&ray, ray_depth);
                        proof {
                            crate::fixed::lemma_fmul_tint(sub@.r, mm.colour@.r);
                            crate::fixed::lemma_fmul_tint(sub@.g, mm.colour@.g);
                            crate::fixed::lemma_fmul_tint(sub@.b, mm.colour@.b);
                            crate::fixed::lemma_fmul_tint(sub@.a, mm.colour@.a);
                        }
                        sub.mul(mm.colour)
                    },
                    // A reflection outside the representable range carries
                    // no light back.
                    Option::None => crate::colour::black(),
                }
            },
            Material::Diffuse(dm) => {
                let n: usize = dm.secondary_rays as usize;
                let mut samples: Vec<Colour> = Vec::new();
                let mut k: usize = 0;
                while k < n
                    invariant
                        scene.wf(),
                        material_wf(*self),
                        *self == Material::Diffuse(*dm),
                        comps_within(normal@, NORMAL_BOUND as int),
                        ray_depth <= scene.max_ray_depth + 1,
                        cbound == scene.depth_bound(ray_depth as int),
                        0 <= k <= n,
                        samples@.len() == k,
                        forall|j: int|
                            0 <= j < samples@.len() ==> channels_in_range(
                                #[trigger] samples@[j]@,
                                cbound,
                            ),
                    decreases n - k,
                {
                    let rd: Vec3 = unit_vector_in_hemisphere(normal);
                    let ray = crate::ray::Ray { origin: *position, direction: rd };
                    let s: Colour = scene.cast_ray(&ray, ray_depth);
                    samples.push(s);
                    k = k + 1;
                }
                proof {
                    assert(0 <= cbound < 0x8000_0000);
                    crate::colour::lemma_sum_bound(samples@, cbound);
                    assert((n as int) * cbound + (n as int) * (ONE as int) == (n as int) * gbound
                        && (ONE as int) <= (n as int) * (ONE as int)) by (nonlinear_arith)
                        requires
                            n >= 1,
                            gbound == cbound + ONE,
                            ONE == 65536,
                    ;
                }
                let total: Colour = Colour::sum(&samples);
                let divisor: i64 = (dm.secondary_rays as i64) * SCALE;
                proof {
                    crate::fixed::lemma_avg_bound(total@.r, n as int, gbound);
                    crate::fixed::lemma_avg_bound(total@.g, n as int, gbound);
                    crate::fixed::lemma_avg_bound(total@.b, n as int, gbound);
                    crate::fixed::lemma_avg_bound(total@.a, n as int, gbound);
                }
                let avg: Colour = total.div_scalar(divisor);
                proof {
                    crate::fixed::lemma_fmul_tint(avg@.r, dm.colour@.r);
                    crate::fixed::lemma_fmul_tint(avg@.g, dm.colour@.g);
                    crate::fixed::lemma_fmul_tint(avg@.b, dm.colour@.b);
                    crate::fixed::lemma_fmul_tint(avg@.a, dm.colour@.a);
                }
                let result: Colour = avg.mul(dm.colour);
                proof {
                    let w = samples@;
                    assert(result@ == crate::colour::mul_v(
                        crate::colour::div_v(
                            crate::colour::sum_v(w),
                            (dm.secondary_rays as int) * (ONE as int),
                        ),
                        dm.colour@,
                    ));
                }
                result
            },
            Material::Checker(cm) => cm.colour_at(position),
            Material::Light(lm) => lm.colour,
            Material::SkyBox(sm) => {
                let c = sm.colour_towards(view_direction);
                proof {
                    let d = normalize_s(view_direction@);
                    let t_raw = HALF + fmul_s(d.y, HALF as int);
                    let t = if t_raw < 0 {
                        0
                    } else if t_raw > ONE {
                        ONE as int
                    } else {
                        t_raw
                    };
                    crate::colour::lemma_lerp_in_range(
                        sm.colour_bottom@,
                        sm.colour_top@,
                        t,
                        CMAX as int,
                    );
                }
                c
            },
        }
    }
}

pub assume_specification<T>[ rand::random::<T> ]() -> (r: T)
    where
        rand::distributions::Standard: rand::distributions::Distribution<T>,
;

/// A pseudo-random fixed-point scalar in `[-ONE, ONE]`.
fn random_scalar() -> (r: i64)
    ensures
        -(ONE as int) <= r as int <= ONE as int,
{
    let x: u32 = rand::random();
    let m: u32 = x % 131073;
    (m as i64) - ONE
}

/// A unit-magnitude direction in the hemisphere oriented by `direction`:
/// rejection-samples the unit ball, then reflects the draw into the
/// hemisphere by adding `direction` and renormalizing, as the diffuse
/// transport model asks.
pub fn unit_vector_in_hemisphere(direction: &Vec3) -> (v: Vec3)
    requires
        comps_within(direction@, NORMAL_BOUND as int),
    ensures
        comps_within(v@, 0x4000_0000_0000_0000),
        exists|u: Vec3View|
            comps_within(u, 2 * (ONE as int)) && v@ == normalize_s(add_vs(u, direction@)),
{
    let mut attempts: u32 = 0;
    while attempts < 1000000
        invariant
            comps_within(direction@, NORMAL_BOUND as int),
        decreases 1000000 - attempts,
    {
        attempts = attempts + 1;
        let vx: i64 = random_scalar();
        let vy: i64 = random_scalar();
        let vz: i64 = random_scalar();
        let vec = Vec3 { x: vx, y: vy, z: vz };
        let m2: i128 = vec.magnitude2_wide();
        if m2 >= 1 && m2 < ONE as i128 {
            let unit: Vec3 = vec.normalize();
            if unit.x >= -131072 && unit.x <= 131072 && unit.y >= -131072 && unit.y <= 131072
                && unit.z >= -131072 && unit.z <= 131072 {
                let sum: Vec3 = unit.add(*direction);
                let r: Vec3 = sum.normalize();
                proof {
                    assert(comps_within(unit@, 2 * (ONE as int)));
                    assert(r@ == normalize_s(add_vs(unit@, direction@)));
                }
                return r;
            }
        }
    }
    // The draw budget is all but unreachable; past it the surface normal's
    // own direction is a member of the hemisphere.
    let sum: Vec3 = Vec3::zero().add(*direction);
    let r: Vec3 = sum.normalize();
    proof {
        let u = Vec3View { x: 0, y: 0, z: 0 };
        assert(comps_within(u, 2 * (ONE as int)));
        assert(r@ == normalize_s(add_vs(u, direction@)));
    }
    r
}

} // verus!
