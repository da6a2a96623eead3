//! The scene: a root surface, a background material and a recursion budget.

use vstd::prelude::*;

use crate::colour::{black, black_s, channels_in_range, Colour};
use crate::fixed::ONE;
use crate::hit::Hit;
use crate::intersectable::{
    lemma_surface_hit_props, surface_intersect_s, surface_wf, Surface,
};
use crate::material::{material_wf, shade_det, Material, CMAX};
use crate::ray::Ray;
use crate::vector::{Vec3, Vec3View};

verus! {

/// Why a configuration was rejected at construction time.
#[derive(Clone, Copy, Debug, PartialEq, Eq, Structural)]
pub enum ConfigError {
    /// A material in the scene breaks a colour range, a sample count or a
    /// grid size constraint.
    InvalidMaterial,
    /// The image is narrower or shorter than two pixels, or wider or taller
    /// than the renderer can address.
    InvalidImageSize,
    /// The worker pool would be empty.
    InvalidWorkerCount,
    /// The pixel grid would be split into zero chunks, or more chunks than
    /// pixels.
    InvalidChunkCount,
    /// The camera basis or field of view cannot be normalized.
    InvalidCamera,
}

#[derive(Debug)]
pub struct Scene {
    pub max_ray_depth: u8,
    pub root_intersectable: Surface,
    pub background: Material,
}

#[derive(Clone, Copy, Debug, PartialEq, Eq, Structural)]
pub struct SceneStatistics {
    pub total_number_of_rays_cast: u32,
    pub total_number_of_rays_killed: u32,
}

impl Scene {
    /// Whether every material of the scene is well-formed.
    pub open spec fn wf(&self) -> bool {
        &&& surface_wf(self.root_intersectable)
        &&& material_wf(self.background)
    }

    /// Every channel of a colour computed at `depth` lies within this
    /// bound.
    pub open spec fn depth_bound(&self, depth: int) -> int {
        (CMAX as int) + (self.max_ray_depth + 2 - depth) * (ONE as int)
    }

    /// Builds a scene, rejecting one whose materials break the colour
    /// range, sample count or grid size constraints.
    pub fn new(max_ray_depth: u8, root_intersectable: Surface, background: Material) -> (r: Result<
        Scene,
        ConfigError,
    >)
        ensures
            match r {
                Result::Ok(s) => {
                    &&& s.max_ray_depth == max_ray_depth
                    &&& s.root_intersectable == root_intersectable
                    &&& s.background == background
                    &&& s.wf()
                },
                Result::Err(e) => {
                    &&& e == ConfigError::InvalidMaterial
                    &&& !(surface_wf(root_intersectable) && material_wf(background))
                },
            },
    {
        if root_intersectable.wf_check() && background.wf_check() {
            Result::Ok(Scene { max_ray_depth, root_intersectable, background })
        } else {
            Result::Err(ConfigError::InvalidMaterial)
        }
    }

    /// The colour carried by a ray.
    ///
    /// A ray past the depth budget is black (energy loss). Otherwise the
    /// nearest hit's material shades the ray, and on a miss the background
    /// material shades it from the ray direction alone. The contract pins
    /// the result exactly wherever shading is deterministic (light, checker
    /// and skybox materials), and bounds every channel always.
    pub fn cast_ray(&self, ray: &Ray, ray_depth: u8) -> (c: Colour)
        requires
            self.wf(),
        ensures
            channels_in_range(c@, self.depth_bound(ray_depth as int)),
            ray_depth > self.max_ray_depth ==> c == black_s(),
            ray_depth == 255 ==> c == black_s(),
            ray_depth <= self.max_ray_depth && ray_depth < 255 ==> match surface_intersect_s(
                self.root_intersectable,
                ray@,
            ) {
                Option::Some(h) => match shade_det(h.material, ray@.direction, h.position) {
                    Option::Some(cv) => c@ == cv,
                    Option::None => true,
                },
                Option::None => match shade_det(
                    self.background,
                    ray@.direction,
                    Vec3View { x: 0, y: 0, z: 0 },
                ) {
                    Option::Some(cv) => c@ == cv,
                    Option::None => true,
                },
            },
            ray_depth <= self.max_ray_depth && ray_depth < 255 ==> match surface_intersect_s(
                self.root_intersectable,
                ray@,
            ) {
                Option::Some(h) => match h.material {
                    Material::Mirror(mm) => {
                        &&& (ray_depth + 1 <= self.max_ray_depth && ray_depth + 1 < 255
                            ==> crate::material::mirror_bounce_ok(
                            *self,
                            ray@.direction,
                            h.position,
                            h.normal,
                            mm,
                            c,
                        ))
                        &&& (crate::vector::reflect_s(ray@.direction, h.normal) is None ==> c
                            == black_s())
                    },
                    _ => true,
                },
                Option::None => true,
            },
        decreases self.max_ray_depth + 2 - ray_depth, 1int,
    {
        // At the top of the depth counter's range the budget is treated as
        // exhausted too, so that the counter itself cannot wrap.
        if ray_depth > self.max_ray_depth || ray_depth == 255 {
            return black();
        }
        let hit: Option<Hit> = self.root_intersectable.intersect(ray);
        proof {
            lemma_surface_hit_props(self.root_intersectable, ray@);
        }
        match hit {
            Option::Some(h) => h.material.get_colour(
                self,
                &ray.direction,
                &h.position,
                &h.normal,
                ray_depth + 1,
            ),
            Option::None => self.background.get_colour(
                self,
                &ray.direction,
                &Vec3::zero(),
                &Vec3::zero(),
                ray_depth + 1,
            ),
        }
    }
}

} // verus!
