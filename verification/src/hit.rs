//! The result of a successful ray/surface intersection.

use vstd::prelude::*;

use crate::material::{material_wf, Material};
use crate::vector::{comps_within, Vec3, Vec3View, NORMAL_BOUND};

verus! {

#[derive(Clone, Copy, Debug, PartialEq, Eq, Structural)]
pub struct Hit {
    pub distance: i64,
    pub position: Vec3,
    pub normal: Vec3,
    pub material: Material,
}

/// Mathematical view of a hit.
pub ghost struct HitView {
    pub distance: int,
    pub position: Vec3View,
    pub normal: Vec3View,
    pub material: Material,
}

impl View for Hit {
    type V = HitView;

    open spec fn view(&self) -> HitView {
        HitView {
            distance: self.distance as int,
            position: self.position@,
            normal: self.normal@,
            material: self.material,
        }
    }
}

/// Every hit handed to a material satisfies this: a nonnegative distance, a
/// normal within the bound that shading relies on, and a well-formed
/// material.
pub open spec fn hit_wf(h: HitView) -> bool {
    &&& 0 <= h.distance
    &&& comps_within(h.normal, NORMAL_BOUND as int)
    &&& material_wf(h.material)
}

impl Hit {
    pub fn new(distance: i64, position: Vec3, normal: Vec3, material: Material) -> (h: Hit)
        ensures
            h@ == (HitView {
                distance: distance as int,
                position: position@,
                normal: normal@,
                material,
            }),
    {
        Hit { distance, position, normal, material }
    }
}

} // verus!
