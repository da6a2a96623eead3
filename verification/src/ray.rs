//! Rays: an origin and a direction, normalized on construction.

use vstd::prelude::*;

use crate::vector::{normalize_s, Vec3, Vec3View};

verus! {

#[derive(Clone, Copy, Debug, PartialEq, Eq, Structural)]
pub struct Ray {
    pub origin: Vec3,
    pub direction: Vec3,
}

/// Mathematical view of a ray.
pub ghost struct RayView {
    pub origin: Vec3View,
    pub direction: Vec3View,
}

impl View for Ray {
    type V = RayView;

    open spec fn view(&self) -> RayView {
        RayView { origin: self.origin@, direction: self.direction@ }
    }
}

impl Ray {
    /// Builds a ray, normalizing the given direction.
    pub fn new(origin: Vec3, direction: Vec3) -> (r: Ray)
        ensures
            r.origin == origin,
            r.direction@ == normalize_s(direction@),
    {
        Ray { origin, direction: direction.normalize() }
    }
}

} // verus!
