//! The camera: an orthonormal-by-construction basis, an origin and a
//! field-of-view scale.

use vstd::prelude::*;

use crate::fixed::ONE;
use crate::scene::ConfigError;
use crate::vector::{
    comps_within, cross_s, dot_s, fits_v, normalize_s, sub_vs, Vec3, Vec3View,
};
use crate::viewport::{viewport_ok, Viewport, MAX_FOV_SCALE};

verus! {

#[derive(Clone, Copy, Debug, PartialEq, Eq, Structural)]
pub struct Camera {
    pub basis_left: Vec3,
    pub basis_up: Vec3,
    pub basis_forward: Vec3,
    pub fov_scale: i64,
    pub origin: Vec3,
}

/// The looking basis a camera derives from a forward and an up hint:
/// forward normalized, left from `up x forward` normalized, up rebuilt as
/// `forward x left`.
pub open spec fn camera_forward_s(forward: Vec3View) -> Vec3View {
    normalize_s(forward)
}

pub open spec fn camera_left_s(forward: Vec3View, up: Vec3View) -> Vec3View {
    normalize_s(cross_s(up, camera_forward_s(forward)))
}

pub open spec fn camera_up_s(forward: Vec3View, up: Vec3View) -> Vec3View {
    cross_s(camera_forward_s(forward), camera_left_s(forward, up))
}

/// Whether the derived basis is accepted: each axis nonzero, representable
/// and within the unit-scale bound the viewport relies on.
pub open spec fn camera_basis_ok(forward: Vec3View, up: Vec3View) -> bool {
    let f = camera_forward_s(forward);
    let l_raw = cross_s(up, f);
    let l = camera_left_s(forward, up);
    let u = camera_up_s(forward, up);
    &&& comps_within(f, 2 * ONE)
    &&& dot_s(f, f) > 0
    &&& fits_v(l_raw)
    &&& comps_within(l, 2 * ONE)
    &&& dot_s(l, l) > 0
    &&& fits_v(u)
    &&& comps_within(u, 2 * ONE)
}

impl Camera {
    /// Builds a camera looking along `forward` with `up` as the up hint;
    /// `fov_scale` is the fixed-point value of `2 * tan(fov / 2)`.
    /// A degenerate or out-of-range basis or field of view is rejected.
    pub fn new(origin: Vec3, forward: Vec3, up: Vec3, fov_scale: i64) -> (r: Result<
        Camera,
        ConfigError,
    >)
        ensures
            match r {
                Result::Ok(c) => {
                    &&& camera_basis_ok(forward@, up@)
                    &&& 0 < fov_scale <= MAX_FOV_SCALE
                    &&& c.basis_forward@ == camera_forward_s(forward@)
                    &&& c.basis_left@ == camera_left_s(forward@, up@)
                    &&& c.basis_up@ == camera_up_s(forward@, up@)
                    &&& c.fov_scale == fov_scale
                    &&& c.origin == origin
                    &&& c.wf()
                },
                Result::Err(e) => {
                    &&& e == ConfigError::InvalidCamera
                    &&& !(camera_basis_ok(forward@, up@) && 0 < fov_scale <= MAX_FOV_SCALE)
                },
            },
    {
        if !(fov_scale > 0 && fov_scale <= MAX_FOV_SCALE) {
            return Result::Err(ConfigError::InvalidCamera);
        }
        let f: Vec3 = forward.normalize();
        if !comps_ok2(&f) {
            return Result::Err(ConfigError::InvalidCamera);
        }
        proof {
            crate::fixed::lemma_fmul_abs_within(f@.x, f@.x, 2 * ONE, 2 * ONE);
            crate::fixed::lemma_fmul_abs_within(f@.y, f@.y, 2 * ONE, 2 * ONE);
            crate::fixed::lemma_fmul_abs_within(f@.z, f@.z, 2 * ONE, 2 * ONE);
        }
        if !(f.dot(f) > 0) {
            return Result::Err(ConfigError::InvalidCamera);
        }
        let l_raw: Vec3 = match up.cross(f) {
            Option::Some(v) => v,
            Option::None => {
                return Result::Err(ConfigError::InvalidCamera);
            },
        };
        let l: Vec3 = l_raw.normalize();
        if !comps_ok2(&l) {
            return Result::Err(ConfigError::InvalidCamera);
        }
        proof {
            crate::fixed::lemma_fmul_abs_within(l@.x, l@.x, 2 * ONE, 2 * ONE);
            crate::fixed::lemma_fmul_abs_within(l@.y, l@.y, 2 * ONE, 2 * ONE);
            crate::fixed::lemma_fmul_abs_within(l@.z, l@.z, 2 * ONE, 2 * ONE);
        }
        if !(l.dot(l) > 0) {
            return Result::Err(ConfigError::InvalidCamera);
        }
        let u: Vec3 = match f.cross(l) {
            Option::Some(v) => v,
            Option::None => {
                return Result::Err(ConfigError::InvalidCamera);
            },
        };
        if !comps_ok2(&u) {
            return Result::Err(ConfigError::InvalidCamera);
        }
        Result::Ok(Camera { basis_left: l, basis_up: u, basis_forward: f, fov_scale, origin })
    }

    /// Internal bounds a built camera keeps.
    pub open spec fn wf(&self) -> bool {
        &&& comps_within(self.basis_left@, 2 * ONE)
        &&& comps_within(self.basis_up@, 2 * ONE)
        &&& comps_within(self.basis_forward@, 2 * ONE)
        &&& 0 < self.fov_scale <= MAX_FOV_SCALE
    }

    pub fn left(&self) -> (v: Vec3)
        ensures
            v == self.basis_left,
    {
        self.basis_left
    }

    pub fn up(&self) -> (v: Vec3)
        ensures
            v == self.basis_up,
    {
        self.basis_up
    }

    pub fn forward(&self) -> (v: Vec3)
        ensures
            v == self.basis_forward,
    {
        self.basis_forward
    }

    /// Moves the camera against the given vector (a key press hands in
    /// the axis it pulls the view towards).
    pub fn translate(&mut self, vector: Vec3)
        requires
            fits_v(sub_vs(old(self).origin@, vector@)),
        ensures
            final(self).origin@ == sub_vs(old(self).origin@, vector@),
            final(self).basis_left == old(self).basis_left,
            final(self).basis_up == old(self).basis_up,
            final(self).basis_forward == old(self).basis_forward,
            final(self).fov_scale == old(self).fov_scale,
    {
        self.origin = self.origin.sub(vector);
    }

    /// The viewport for a target image size.
    pub fn get_viewport(&self, width: usize, height: usize) -> (r: Result<Viewport, ConfigError>)
        requires
            self.wf(),
        ensures
            match r {
                Result::Ok(vp) => {
                    &&& viewport_ok(
                        width as int,
                        height as int,
                        self.basis_left@,
                        self.basis_up@,
                        self.basis_forward@,
                        self.fov_scale as int,
                    )
                    &&& vp.width == width
                    &&& vp.height == height
                    &&& vp.basis_z == self.basis_forward
                    &&& vp.origin == self.origin
                    &&& crate::viewport::viewport_wf(vp)
                    &&& vp.basis_x@ == crate::vector::scale_vs(
                        self.basis_left@,
                        self.fov_scale as int,
                    )
                    &&& vp.basis_y@ == crate::vector::scale_vs(
                        self.basis_up@,
                        crate::viewport::delta_y_s(
                            width as int,
                            height as int,
                            self.fov_scale as int,
                        ),
                    )
                },
                Result::Err(e) => {
                    &&& !viewport_ok(
                        width as int,
                        height as int,
                        self.basis_left@,
                        self.basis_up@,
                        self.basis_forward@,
                        self.fov_scale as int,
                    )
                    &&& e == if !(2 <= width <= crate::viewport::MAX_IMAGE_EDGE && 2 <= height
                        <= crate::viewport::MAX_IMAGE_EDGE) {
                        ConfigError::InvalidImageSize
                    } else {
                        ConfigError::InvalidCamera
                    }
                },
            },
    {
        Viewport::new(
            width,
            height,
            self.basis_left,
            self.basis_up,
            self.basis_forward,
            self.origin,
            self.fov_scale,
        )
    }
}

impl Default for Camera {
    /// The camera the interactive view starts from: at `(0, 0, 5)`, looking
    /// along `-z` with `+y` up and a right-angle field of view, whose scale
    /// `2 * tan(pi / 4)` is exactly two.
    fn default() -> (c: Camera)
        ensures
            c.origin@ == (Vec3View { x: 0, y: 0, z: 5 * ONE }),
            c.basis_forward@ == (Vec3View { x: 0, y: 0, z: -(ONE as int) }),
            c.basis_up@ == (Vec3View { x: 0, y: ONE as int, z: 0 }),
            c.fov_scale == 2 * ONE,
            c.wf(),
    {
        let origin = Vec3 { x: 0, y: 0, z: 5 * ONE };
        let forward = Vec3 { x: 0, y: 0, z: -ONE };
        let up = Vec3 { x: 0, y: ONE, z: 0 };
        let fov_scale: i64 = 2 * ONE;
        match Camera::new(origin, forward, up, fov_scale) {
            Result::Ok(c) => {
                proof {
                    lemma_default_camera_basis();
                }
                c
            },
            Result::Err(_) => {
                proof {
                    lemma_default_camera_basis();
                }
                // The default configuration always satisfies the
                // constructor's checks.
                Camera {
                    basis_left: Vec3 { x: -ONE, y: 0, z: 0 },
                    basis_up: Vec3 { x: 0, y: ONE, z: 0 },
                    basis_forward: Vec3 { x: 0, y: 0, z: -ONE },
                    fov_scale,
                    origin,
                }
            },
        }
    }
}

/// The default camera's basis evaluates exactly: forward `(0, 0, -1)`,
/// left `(-1, 0, 0)`, up `(0, 1, 0)`.
pub proof fn lemma_default_camera_basis()
    ensures
        camera_forward_s(Vec3View { x: 0, y: 0, z: -(ONE as int) }) == (Vec3View {
            x: 0,
            y: 0,
            z: -(ONE as int),
        }),
        camera_left_s(
            Vec3View { x: 0, y: 0, z: -(ONE as int) },
            Vec3View { x: 0, y: ONE as int, z: 0 },
        ) == (Vec3View { x: -(ONE as int), y: 0, z: 0 }),
        camera_up_s(
            Vec3View { x: 0, y: 0, z: -(ONE as int) },
            Vec3View { x: 0, y: ONE as int, z: 0 },
        ) == (Vec3View { x: 0, y: ONE as int, z: 0 }),
{
    let fwd = Vec3View { x: 0, y: 0, z: -(ONE as int) };
    let up = Vec3View { x: 0, y: ONE as int, z: 0 };
    crate::fixed::lemma_fmul_one(-(ONE as int));
    crate::fixed::lemma_fmul_one(ONE as int);
    crate::fixed::lemma_fmul_neg_one();
    crate::fixed::lemma_fmul_comm(ONE as int, -(ONE as int));
    crate::fixed::lemma_fmul_comm(-(ONE as int), -(ONE as int));
    assert(dot_s(fwd, fwd) == ONE);
    crate::viewport::lemma_normalize_exact_unit(fwd);
    let l_raw = cross_s(up, fwd);
    assert(l_raw == (Vec3View { x: -(ONE as int), y: 0, z: 0 }));
    assert(dot_s(l_raw, l_raw) == ONE);
    crate::viewport::lemma_normalize_exact_unit(l_raw);
    assert(cross_s(fwd, l_raw) == (Vec3View { x: 0, y: ONE as int, z: 0 }));
}

/// Whether every component of a vector lies within `2 * ONE`.
fn comps_ok2(v: &Vec3) -> (b: bool)
    ensures
        b == comps_within(v@, 2 * ONE),
{
    v.x >= -131072 && v.x <= 131072 && v.y >= -131072 && v.y <= 131072 && v.z >= -131072 && v.z
        <= 131072
}

} // verus!
