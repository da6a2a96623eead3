//! Ray generation: one ray per pixel, row-major, for a camera basis.

use vstd::prelude::*;

use crate::fixed::{
    fdiv, fdiv_s, fmul, fmul_s, lemma_avg_bound, lemma_fmul_abs_within, lemma_fmul_one, qtrunc,
    HALF, ONE, SCALE,
};
use crate::ray::{Ray, RayView};
use crate::scene::ConfigError;
use crate::vector::{
    add_vs, comps_within, dot_s, normalize_s, scale_vs, Vec3, Vec3View,
};
use vstd::arithmetic::div_mod::{
    lemma_fundamental_div_mod_converse_div, lemma_fundamental_div_mod_converse_mod,
};

verus! {

/// Widest image edge the renderer addresses, in pixels.
pub const MAX_IMAGE_EDGE: usize = 32768;

/// Largest accepted field-of-view scale: `2 * tan(fov / 2)` at most 64.
pub const MAX_FOV_SCALE: i64 = 0x40_0000;

#[derive(Debug, Clone)]
pub struct Viewport {
    pub width: usize,
    pub height: usize,
    pub basis_x: Vec3,
    pub basis_y: Vec3,
    pub basis_z: Vec3,
    pub origin: Vec3,
    pub current_x: usize,
    pub current_y: usize,
}

/// Whether a viewport configuration is accepted.
pub open spec fn viewport_ok(
    width: int,
    height: int,
    left: Vec3View,
    up: Vec3View,
    forward: Vec3View,
    fov_scale: int,
) -> bool {
    &&& 2 <= width <= MAX_IMAGE_EDGE
    &&& 2 <= height <= MAX_IMAGE_EDGE
    &&& 0 < fov_scale <= MAX_FOV_SCALE
    &&& comps_within(left, 2 * ONE)
    &&& comps_within(up, 2 * ONE)
    &&& comps_within(forward, 2 * ONE)
}

/// The vertical field-of-view scale: the horizontal one, multiplied by the
/// aspect ratio `height / width`.
pub open spec fn delta_y_s(width: int, height: int, fov_scale: int) -> int {
    fmul_s(fov_scale, fdiv_s(height * ONE, width * ONE))
}

/// Internal bounds a built viewport keeps.
pub open spec fn viewport_wf(vp: Viewport) -> bool {
    &&& 2 <= vp.width <= MAX_IMAGE_EDGE
    &&& 2 <= vp.height <= MAX_IMAGE_EDGE
    &&& comps_within(vp.basis_x@, 0x80_0000)
    &&& comps_within(vp.basis_y@, 0x40_0000_0000)
    &&& comps_within(vp.basis_z@, 2 * ONE)
}

/// Device coordinate of a pixel along one axis: `p / extent - 1/2`.
pub open spec fn device_coord_s(p: int, extent: int) -> int {
    fdiv_s(p * ONE, extent * ONE) - HALF
}

/// The (unnormalized) direction through a pixel:
/// `forward + u * scaled_left + v * scaled_up`.
pub open spec fn pixel_dir_s(vp: Viewport, x: int, y: int) -> Vec3View {
    add_vs(
        add_vs(vp.basis_z@, scale_vs(vp.basis_x@, device_coord_s(x, vp.width as int))),
        scale_vs(vp.basis_y@, device_coord_s(y, vp.height as int)),
    )
}

/// The ray through a pixel: the camera origin, aimed through the pixel,
/// normalized.
pub open spec fn pixel_ray_s(vp: Viewport, x: int, y: int) -> RayView {
    RayView { origin: vp.origin@, direction: normalize_s(pixel_dir_s(vp, x, y)) }
}

impl Viewport {
    /// Builds a viewport, rejecting undersized or oversized images and
    /// out-of-range camera configurations.
    pub fn new(
        width: usize,
        height: usize,
        left: Vec3,
        up: Vec3,
        forward: Vec3,
        origin: Vec3,
        fov_scale: i64,
    ) -> (r: Result<Viewport, ConfigError>)
        ensures
            match r {
                Result::Ok(vp) => {
                    &&& viewport_ok(
                        width as int,
                        height as int,
                        left@,
                        up@,
                        forward@,
                        fov_scale as int,
                    )
                    &&& vp.width == width
                    &&& vp.height == height
                    &&& vp.basis_x@ == scale_vs(left@, fov_scale as int)
                    &&& vp.basis_y@ == scale_vs(
                        up@,
                        delta_y_s(width as int, height as int, fov_scale as int),
                    )
                    &&& vp.basis_z == forward
                    &&& vp.origin == origin
                    &&& vp.current_x == 0
                    &&& vp.current_y == 0
                    &&& viewport_wf(vp)
                },
                Result::Err(e) => {
                    &&& !viewport_ok(
                        width as int,
                        height as int,
                        left@,
                        up@,
                        forward@,
                        fov_scale as int,
                    )
                    &&& e == if !(2 <= width <= MAX_IMAGE_EDGE && 2 <= height <= MAX_IMAGE_EDGE) {
                        ConfigError::InvalidImageSize
                    } else {
                        ConfigError::InvalidCamera
                    }
                },
            },
    {
        if !(width >= 2 && width <= MAX_IMAGE_EDGE && height >= 2 && height <= MAX_IMAGE_EDGE) {
            return Result::Err(ConfigError::InvalidImageSize);
        }
        if !(fov_scale > 0 && fov_scale <= MAX_FOV_SCALE) {
            return Result::Err(ConfigError::InvalidCamera);
        }
        if !(comps_ok(&left) && comps_ok(&up) && comps_ok(&forward)) {
            return Result::Err(ConfigError::InvalidCamera);
        }
        let width_fx: i64 = (width as i64) * SCALE;
        let height_fx: i64 = (height as i64) * SCALE;
        proof {
            assert((height as int) * 65536 <= (width as int) * 0x4000_0000) by (nonlinear_arith)
                requires
                    height <= 32768,
                    width >= 2,
            ;
            assert((height as int) * 65536 >= 0) by (nonlinear_arith)
                requires
                    height >= 2,
            ;
            lemma_avg_bound((height as int) * (ONE as int), width as int, 0x4000_0000);
        }
        let aspect: i64 = fdiv(height_fx, width_fx);
        proof {
            lemma_fmul_abs_within(fov_scale as int, aspect as int, MAX_FOV_SCALE as int,
                0x4000_0000);
        }
        let dy: i64 = fmul(fov_scale, aspect);
        proof {
            lemma_fmul_abs_within(left@.x, fov_scale as int, 2 * ONE, MAX_FOV_SCALE as int);
            lemma_fmul_abs_within(left@.y, fov_scale as int, 2 * ONE, MAX_FOV_SCALE as int);
            lemma_fmul_abs_within(left@.z, fov_scale as int, 2 * ONE, MAX_FOV_SCALE as int);
            lemma_fmul_abs_within(up@.x, dy as int, 2 * ONE, 0x10_0000_0000);
            lemma_fmul_abs_within(up@.y, dy as int, 2 * ONE, 0x10_0000_0000);
            lemma_fmul_abs_within(up@.z, dy as int, 2 * ONE, 0x10_0000_0000);
        }
        let basis_x: Vec3 = left.scale(fov_scale);
        let basis_y: Vec3 = up.scale(dy);
        Result::Ok(
            Viewport {
                width,
                height,
                basis_x,
                basis_y,
                basis_z: forward,
                origin,
                current_x: 0,
                current_y: 0,
            },
        )
    }

    /// The ray through pixel `(x, y)`.
    pub fn ray_at(&self, x: usize, y: usize) -> (r: Ray)
        requires
            viewport_wf(*self),
            x < self.width,
            y < self.height,
        ensures
            r@ == pixel_ray_s(*self, x as int, y as int),
    {
        let u: i64 = device_coord(x, self.width);
        let v: i64 = device_coord(y, self.height);
        proof {
            lemma_fmul_abs_within(self.basis_x@.x, u as int, 0x80_0000, ONE as int);
            lemma_fmul_abs_within(self.basis_x@.y, u as int, 0x80_0000, ONE as int);
            lemma_fmul_abs_within(self.basis_x@.z, u as int, 0x80_0000, ONE as int);
            lemma_fmul_abs_within(self.basis_y@.x, v as int, 0x40_0000_0000, ONE as int);
            lemma_fmul_abs_within(self.basis_y@.y, v as int, 0x40_0000_0000, ONE as int);
            lemma_fmul_abs_within(self.basis_y@.z, v as int, 0x40_0000_0000, ONE as int);
        }
        let du: Vec3 = self.basis_x.scale(u);
        let dv: Vec3 = self.basis_y.scale(v);
        let dir: Vec3 = self.basis_z.add(du).add(dv);
        Ray::new(self.origin, dir)
    }

    /// The next ray of the row-major enumeration, if one is left, lazily,
    /// advancing the pixel cursor.
    pub fn next(&mut self) -> (r: Option<Ray>)
        requires
            viewport_wf(*old(self)),
            old(self).current_x < old(self).width,
        ensures
            final(self).width == old(self).width,
            final(self).height == old(self).height,
            final(self).basis_x == old(self).basis_x,
            final(self).basis_y == old(self).basis_y,
            final(self).basis_z == old(self).basis_z,
            final(self).origin == old(self).origin,
            final(self).current_x < final(self).width,
            match r {
                Option::Some(ray) => {
                    &&& old(self).current_y < old(self).height
                    &&& ray@ == pixel_ray_s(
                        *old(self),
                        old(self).current_x as int,
                        old(self).current_y as int,
                    )
                    &&& if old(self).current_x + 1 == old(self).width {
                        final(self).current_x == 0 && final(self).current_y == old(
                            self,
                        ).current_y + 1
                    } else {
                        final(self).current_x == old(self).current_x + 1 && final(self).current_y
                            == old(self).current_y
                    }
                },
                Option::None => {
                    &&& old(self).current_y >= old(self).height
                    &&& *final(self) == *old(self)
                },
            },
    {
        if self.current_y >= self.height {
            return Option::None;
        }
        let ray: Ray = self.ray_at(self.current_x, self.current_y);
        self.current_x = self.current_x + 1;
        if self.current_x >= self.width {
            self.current_x = 0;
            self.current_y = self.current_y + 1;
        }
        Option::Some(ray)
    }

    /// The full row-major ray sequence: exactly `width * height` rays, the
    /// ray at index `k` aimed through pixel `(k % width, k / width)`.
    pub fn rays(&self) -> (r: Vec<Ray>)
        requires
            viewport_wf(*self),
        ensures
            r@.len() == self.width * self.height,
            forall|k: int|
                0 <= k < r@.len() ==> (#[trigger] r@[k])@ == pixel_ray_s(
                    *self,
                    k % (self.width as int),
                    k / (self.width as int),
                ),
    {
        let mut out: Vec<Ray> = Vec::new();
        let mut y: usize = 0;
        proof {
            assert((self.width as int) * (self.height as int) <= 32768 * 32768)
                by (nonlinear_arith)
                requires
                    self.width <= 32768,
                    self.height <= 32768,
            ;
        }
        while y < self.height
            invariant
                viewport_wf(*self),
                0 <= y <= self.height,
                out@.len() == y * self.width,
                out@.len() <= 32768 * 32768,
                forall|k: int|
                    0 <= k < out@.len() ==> (#[trigger] out@[k])@ == pixel_ray_s(
                        *self,
                        k % (self.width as int),
                        k / (self.width as int),
                    ),
            decreases self.height - y,
        {
            let mut x: usize = 0;
            proof {
                assert((y + 1) * self.width == y * self.width + self.width) by (nonlinear_arith);
                assert(y * self.width >= 0) by (nonlinear_arith)
                    requires
                        y >= 0,
                        self.width >= 2,
                ;
                assert((y + 1) * (self.width as int) <= 32768 * 32768) by (nonlinear_arith)
                    requires
                        y + 1 <= self.height,
                        self.height <= 32768,
                        self.width <= 32768,
                        y >= 0,
                ;
            }
            while x < self.width
                invariant
                    viewport_wf(*self),
                    0 <= y < self.height,
                    0 <= x <= self.width,
                    out@.len() == y * self.width + x,
                    y * self.width >= 0,
                    (y + 1) * (self.width as int) <= 32768 * 32768,
                    (y + 1) * self.width == y * self.width + self.width,
                    forall|k: int|
                        0 <= k < out@.len() ==> (#[trigger] out@[k])@ == pixel_ray_s(
                            *self,
                            k % (self.width as int),
                            k / (self.width as int),
                        ),
                decreases self.width - x,
            {
                let ray: Ray = self.ray_at(x, y);
                proof {
                    lemma_fundamental_div_mod_converse_mod(
                        (y * self.width + x) as int,
                        self.width as int,
                        y as int,
                        x as int,
                    );
                    lemma_fundamental_div_mod_converse_div(
                        (y * self.width + x) as int,
                        self.width as int,
                        y as int,
                        x as int,
                    );
                }
                out.push(ray);
                x = x + 1;
            }
            y = y + 1;
        }
        proof {
            assert(out@.len() == (self.height as int) * (self.width as int));
            assert((self.height as int) * (self.width as int) == (self.width as int) * (
            self.height as int)) by (nonlinear_arith);
        }
        out
    }
}

/// Device coordinate of a pixel along one axis, in `[-HALF, HALF]`.
fn device_coord(p: usize, extent: usize) -> (r: i64)
    requires
        p < extent,
        2 <= extent <= MAX_IMAGE_EDGE,
    ensures
        r as int == device_coord_s(p as int, extent as int),
        -(HALF as int) <= r as int <= HALF as int,
{
    let p_fx: i64 = (p as i64) * SCALE;
    let e_fx: i64 = (extent as i64) * SCALE;
    proof {
        lemma_avg_bound((p as int) * (ONE as int), extent as int, ONE as int);
        assert((p as int) * 65536 <= (extent as int) * 65536) by (nonlinear_arith)
            requires
                p < extent,
        ;
        assert((p as int) * 65536 >= 0) by (nonlinear_arith)
            requires
                p >= 0,
        ;
    }
    let q: i64 = fdiv(p_fx, e_fx);
    q - HALF
}

/// Whether every component of a vector lies within `2 * ONE`.
fn comps_ok(v: &Vec3) -> (b: bool)
    ensures
        b == comps_within(v@, 2 * ONE),
{
    v.x >= -131072 && v.x <= 131072 && v.y >= -131072 && v.y <= 131072 && v.z >= -131072 && v.z
        <= 131072
}

/// The centre pixel of an even-sized image looks exactly along the camera's
/// forward vector: its device coordinates are exactly zero, and when the
/// forward vector has an exactly unit fixed-point magnitude, normalization
/// returns it unchanged.
pub proof fn lemma_centre_ray_is_forward(vp: Viewport)
    requires
        viewport_wf(vp),
        vp.width % 2 == 0,
        vp.height % 2 == 0,
        dot_s(vp.basis_z@, vp.basis_z@) == ONE,
    ensures
        pixel_ray_s(vp, vp.width as int / 2, vp.height as int / 2).direction == vp.basis_z@,
{
    lemma_device_coord_centre(vp.width as int);
    lemma_device_coord_centre(vp.height as int);
    let u = device_coord_s(vp.width as int / 2, vp.width as int);
    assert(u == 0);
    assert(fmul_s(vp.basis_x@.x, 0) == 0);
    assert(fmul_s(vp.basis_x@.y, 0) == 0);
    assert(fmul_s(vp.basis_x@.z, 0) == 0);
    assert(fmul_s(vp.basis_y@.x, 0) == 0);
    assert(fmul_s(vp.basis_y@.y, 0) == 0);
    assert(fmul_s(vp.basis_y@.z, 0) == 0);
    assert(pixel_dir_s(vp, vp.width as int / 2, vp.height as int / 2) == vp.basis_z@);
    lemma_normalize_exact_unit(vp.basis_z@);
}

/// The device coordinate of the centre pixel of an even extent is exactly
/// zero.
pub proof fn lemma_device_coord_centre(extent: int)
    requires
        2 <= extent,
        extent % 2 == 0,
    ensures
        device_coord_s(extent / 2, extent) == 0,
{
    let h = extent / 2;
    assert(extent == 2 * h);
    assert((h * 65536) * 65536 == (2 * h * 65536) * 32768 + 0) by (nonlinear_arith);
    assert(qtrunc(h * 65536 * 65536, extent * 65536) == 32768) by {
        assert(h * 65536 * 65536 >= 0) by (nonlinear_arith)
            requires
                h >= 1,
        ;
        assert(extent * 65536 > 0) by (nonlinear_arith)
            requires
                extent >= 2,
        ;
        lemma_fundamental_div_mod_converse_div(
            h * 65536 * 65536,
            extent * 65536,
            32768,
            0,
        );
        assert(32768 * (extent * 65536) + 0 == (h * 65536) * 65536) by (nonlinear_arith)
            requires
                extent == 2 * h,
        ;
    };
}

/// Normalizing a vector whose fixed-point squared magnitude is exactly
/// `ONE` returns it unchanged.
pub proof fn lemma_normalize_exact_unit(v: Vec3View)
    requires
        comps_within(v, 2 * ONE),
        dot_s(v, v) == ONE,
    ensures
        normalize_s(v) == v,
{
    assert((65536nat) * (65536nat) <= (65536 * 65536) as nat && ((65536 * 65536) as nat) < (
    65536nat + 1) * (65536nat + 1)) by (nonlinear_arith);
    crate::fixed::lemma_isqrt_unique((65536 * 65536) as nat, 65536nat);
    assert(crate::fixed::isqrt_s((65536 * 65536) as nat) == 65536);
    lemma_div_by_one_fx(v.x);
    lemma_div_by_one_fx(v.y);
    lemma_div_by_one_fx(v.z);
}

/// Dividing a fixed-point scalar by `ONE` is exact.
pub proof fn lemma_div_by_one_fx(a: int)
    ensures
        fdiv_s(a, ONE as int) == a,
{
    lemma_fmul_one(a);
}

} // verus!
