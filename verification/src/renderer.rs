//! The renderer: turns a camera and an image size into a row-major colour
//! buffer, casting one primary ray per pixel.
//!
//! The pixel grid can be split into contiguous chunks whose bounds
//! `chunk_bounds` computes; every pixel belongs to exactly one chunk, so
//! workers tracing disjoint chunks never write the same output cell.

use vstd::prelude::*;

use crate::camera::Camera;
use crate::colour::{channels_in_range, Colour};
use crate::ray::{Ray, RayView};
use crate::scene::{ConfigError, Scene};
use crate::viewport::{viewport_ok, Viewport};

verus! {

pub struct Renderer {
    pub num_workers: usize,
    pub num_chunks: usize,
    pub scene: Scene,
}

/// What `cast_ray` guarantees of a primary ray's colour, beyond its range:
/// wherever the shading is deterministic, the colour is pinned exactly.
pub open spec fn primary_colour_ok(scene: Scene, ray: RayView, c: crate::colour::ColourView) -> bool {
    &&& channels_in_range(c, scene.depth_bound(0))
    &&& match crate::intersectable::surface_intersect_s(
        scene.root_intersectable,
        ray,
    ) {
        Option::Some(h) => match crate::material::shade_det(h.material, ray.direction, h.position) {
            Option::Some(cv) => c == cv,
            Option::None => true,
        },
        Option::None => match crate::material::shade_det(
            scene.background,
            ray.direction,
            crate::vector::Vec3View { x: 0, y: 0, z: 0 },
        ) {
            Option::Some(cv) => c == cv,
            Option::None => true,
        },
    }
}

/// Casts a primary ray for every ray of a chunk, in order.
pub fn cast_rays(scene: &Scene, rays: &[Ray]) -> (out: Vec<Colour>)
    requires
        scene.wf(),
    ensures
        out@.len() == rays@.len(),
        forall|k: int|
            0 <= k < out@.len() ==> primary_colour_ok(*scene, rays@[k]@, (#[trigger] out@[k])@),
{
    let mut out: Vec<Colour> = Vec::new();
    let mut i: usize = 0;
    let n: usize = rays.len();
    while i < n
        invariant
            scene.wf(),
            n == rays@.len(),
            0 <= i <= n,
            out@.len() == i,
            forall|k: int|
                0 <= k < out@.len() ==> primary_colour_ok(*scene, rays@[k]@, (#[trigger] out@[k])@),
        decreases n - i,
    {
        let ray: Ray = rays[i];
        let c: Colour = scene.cast_ray(&ray, 0);
        out.push(c);
        i = i + 1;
    }
    out
}

/// The bounds of the contiguous pixel chunks: each chunk `[start, end)`,
/// every chunk of the quotient size except possibly the final one, and
/// together covering `[0, image_size)` exactly, without overlap.
pub fn chunk_bounds(image_size: usize, num_chunks: usize) -> (r: Result<
    Vec<(usize, usize)>,
    ConfigError,
>)
    ensures
        match r {
            Result::Ok(v) => {
                &&& 1 <= num_chunks <= image_size
                &&& v@.len() >= 1
                &&& v@[0].0 == 0
                &&& v@[v@.len() - 1].1 == image_size
                &&& forall|j: int| 0 <= j < v@.len() ==> (#[trigger] v@[j]).0 < v@[j].1 <= image_size
                &&& forall|j: int| 0 <= j < v@.len() - 1 ==> (#[trigger] v@[j]).1 == v@[j + 1].0
                &&& forall|j: int|
                    0 <= j < v@.len() ==> ((#[trigger] v@[j]).1 - v@[j].0 == image_size as int
                        / num_chunks as int || v@[j].1 == image_size)
            },
            Result::Err(e) => {
                &&& e == ConfigError::InvalidChunkCount
                &&& (num_chunks == 0 || num_chunks > image_size)
            },
        },
{
    if num_chunks == 0 || num_chunks > image_size {
        return Result::Err(ConfigError::InvalidChunkCount);
    }
    let chunk_size: usize = image_size / num_chunks;
    proof {
        assert(image_size as int / num_chunks as int >= 1) by (nonlinear_arith)
            requires
                1 <= num_chunks <= image_size,
        ;
    }
    let mut v: Vec<(usize, usize)> = Vec::new();
    let mut start: usize = 0;
    while start < image_size
        invariant
            1 <= chunk_size,
            chunk_size == image_size as int / num_chunks as int,
            0 <= start <= image_size,
            start < image_size ==> (v@.len() == 0 ==> start == 0),
            v@.len() == 0 ==> start == 0,
            v@.len() >= 1 ==> v@[0].0 == 0 && v@[v@.len() - 1].1 == start,
            forall|j: int| 0 <= j < v@.len() ==> (#[trigger] v@[j]).0 < v@[j].1 <= image_size,
            forall|j: int| 0 <= j < v@.len() - 1 ==> (#[trigger] v@[j]).1 == v@[j + 1].0,
            forall|j: int|
                0 <= j < v@.len() ==> ((#[trigger] v@[j]).1 - v@[j].0 == chunk_size || v@[j].1
                    == image_size),
            start == image_size ==> v@.len() >= 1,
        decreases image_size - start,
    {
        let end: usize = if image_size - start < chunk_size {
            image_size
        } else {
            start + chunk_size
        };
        v.push((start, end));
        start = end;
    }
    Result::Ok(v)
}

impl Renderer {
    /// Renders the full image: one colour per pixel, row-major. The
    /// configuration is validated first: the camera and image size must
    /// make a viewport, the worker pool must not be empty, and the chunk
    /// count must be positive and at most the pixel count.
    pub fn render(&self, camera: &Camera, width: usize, height: usize) -> (r: Result<
        Vec<Colour>,
        ConfigError,
    >)
        requires
            self.scene.wf(),
            camera.wf(),
        ensures
            match r {
                Result::Ok(img) => {
                    &&& img@.len() == width * height
                    &&& self.num_workers >= 1
                    &&& 1 <= self.num_chunks <= width * height
                    &&& exists|vp: Viewport|
                        crate::viewport::viewport_wf(vp) && vp.width == width && vp.height
                            == height && #[trigger] vp.origin == camera.origin && vp.basis_z
                            == camera.basis_forward && vp.basis_x@ == crate::vector::scale_vs(
                            camera.basis_left@,
                            camera.fov_scale as int,
                        ) && vp.basis_y@ == crate::vector::scale_vs(
                            camera.basis_up@,
                            crate::viewport::delta_y_s(
                                width as int,
                                height as int,
                                camera.fov_scale as int,
                            ),
                        ) && forall|k: int|
                            0 <= k < img@.len() ==> primary_colour_ok(
                                self.scene,
                                crate::viewport::pixel_ray_s(
                                    vp,
                                    k % (width as int),
                                    k / (width as int),
                                ),
                                (#[trigger] img@[k])@,
                            )
                },
                Result::Err(e) => {
                    ||| (e == ConfigError::InvalidImageSize || e == ConfigError::InvalidCamera)
                        && !viewport_ok(
                        width as int,
                        height as int,
                        camera.basis_left@,
                        camera.basis_up@,
                        camera.basis_forward@,
                        camera.fov_scale as int,
                    )
                    ||| e == ConfigError::InvalidWorkerCount && self.num_workers == 0
                    ||| e == ConfigError::InvalidChunkCount && (self.num_chunks == 0
                        || self.num_chunks > width * height)
                },
            },
    {
        let vp: Viewport = match camera.get_viewport(width, height) {
            Result::Ok(vp) => vp,
            Result::Err(e) => {
                return Result::Err(e);
            },
        };
        if self.num_workers == 0 {
            return Result::Err(ConfigError::InvalidWorkerCount);
        }
        proof {
            assert((width as int) * (height as int) <= 32768 * 32768) by (nonlinear_arith)
                requires
                    width <= 32768,
                    height <= 32768,
            ;
        }
        let image_size: usize = width * height;
        if self.num_chunks == 0 || self.num_chunks > image_size {
            return Result::Err(ConfigError::InvalidChunkCount);
        }
        let rays: Vec<Ray> = vp.rays();
        let img: Vec<Colour> = cast_rays(&self.scene, rays.as_slice());
        Result::Ok(img)
    }
}

} // verus!
