//! Surfaces: triangles, spheres and composite groups, with nearest-hit
//! queries.

use vstd::prelude::*;

use crate::fixed::{abs_i, fdiv_s, fits_i64, fmul_wide, lemma_fmul_abs_within, qtrunc, tdiv128, ONE,
    SCALE};
use crate::hit::{Hit, HitView};
use crate::material::{material_wf, Material};
use crate::ray::{Ray, RayView};
use crate::sphere::{fits128, sphere_intersect_s, Sphere};
use crate::vector::{
    add_vs, comps_within, cross_s, dot_s, fits_v, scale_vs, sub_vs, Vec3, Vec3View, NORMAL_BOUND,
};

verus! {

#[derive(Clone, Copy, Debug, PartialEq, Eq, Structural)]
pub struct Triangle {
    pub a: Vec3,
    pub b: Vec3,
    pub c: Vec3,
    pub material: Material,
}

#[derive(Debug)]
pub struct Intersectables {
    pub intersectables: Vec<Surface>,
}

#[derive(Debug)]
pub enum Surface {
    Sphere(Sphere),
    Triangle(Triangle),
    Group(Intersectables),
}

/// Bound kept on the fixed-point barycentric dot products, so that their
/// pairwise products stay representable.
pub const BARY_BOUND: i64 = 0x7FFF_FFFF_FFFF;

/// Intersection model: plane intersection through the face normal
/// `(b - a) x (c - a)`, then a barycentric inside test. A degenerate
/// triangle, a parallel ray, a behind-the-origin plane hit, a point outside
/// the triangle, or any intermediate value out of the representable range,
/// is a miss.
pub open spec fn triangle_intersect_s(t: Triangle, ray: RayView) -> Option<HitView> {
    let u = sub_vs(t.b@, t.a@);
    let v = sub_vs(t.c@, t.a@);
    if !fits_v(u) || !fits_v(v) {
        Option::None
    } else {
        let n = cross_s(u, v);
        if !comps_within(n, NORMAL_BOUND as int) {
            Option::None
        } else if dot_s(n, n) == 0 {
            Option::None
        } else {
            let ang = dot_s(n, ray.direction);
            if !fits_i64(ang) || ang == 0 {
                Option::None
            } else {
                let w0 = sub_vs(ray.origin, t.a@);
                if !fits_v(w0) {
                    Option::None
                } else {
                    let num = -dot_s(n, w0);
                    if !fits_i64(num) {
                        Option::None
                    } else {
                        let dist = fdiv_s(num, ang);
                        if !fits_i64(dist) || dist < 0 {
                            Option::None
                        } else {
                            triangle_inside_s(t, ray, n, u, v, dist)
                        }
                    }
                }
            }
        }
    }
}

/// Second half of the triangle model: the barycentric inside test at the
/// plane-intersection point.
pub open spec fn triangle_inside_s(
    t: Triangle,
    ray: RayView,
    n: Vec3View,
    u: Vec3View,
    v: Vec3View,
    dist: int,
) -> Option<HitView> {
    let pos = add_vs(ray.origin, scale_vs(ray.direction, dist));
    if !fits_v(pos) {
        Option::None
    } else {
        let w = sub_vs(pos, t.a@);
        if !fits_v(w) {
            Option::None
        } else {
            let uu = dot_s(u, u);
            let uv = dot_s(u, v);
            let vv = dot_s(v, v);
            let wu = dot_s(w, u);
            let wv = dot_s(w, v);
            if abs_i(uu) > BARY_BOUND || abs_i(uv) > BARY_BOUND || abs_i(vv) > BARY_BOUND
                || abs_i(wu) > BARY_BOUND || abs_i(wv) > BARY_BOUND {
                Option::None
            } else {
                let den = uv * uv - uu * vv;
                if den == 0 {
                    Option::None
                } else {
                    let s = qtrunc((uv * wv - vv * wu) * (SCALE as int), den);
                    let tt = qtrunc((uv * wu - uu * wv) * (SCALE as int), den);
                    if !fits_i64(s) || !fits_i64(tt) {
                        Option::None
                    } else if s < 0 || s > ONE || tt < 0 || (s as i128) + (tt as i128) > ONE as i128 {
                        Option::None
                    } else {
                        Option::Some(
                            HitView { distance: dist, position: pos, normal: n, material: t.material },
                        )
                    }
                }
            }
        }
    }
}

impl Triangle {
    /// Nearest intersection of a ray with this triangle, or `None` on a
    /// miss.
    pub fn intersect(&self, ray: &Ray) -> (h: Option<Hit>)
        ensures
            match h {
                Option::Some(hit) => {
                    &&& triangle_intersect_s(*self, ray@) == Option::Some(hit@)
                    &&& 0 <= hit@.distance
                    &&& comps_within(hit@.normal, NORMAL_BOUND as int)
                    &&& hit@.material == self.material
                },
                Option::None => triangle_intersect_s(*self, ray@) == Option::<HitView>::None,
            },
    {
        let ux: i128 = self.b.x as i128 - self.a.x as i128;
        let uy: i128 = self.b.y as i128 - self.a.y as i128;
        let uz: i128 = self.b.z as i128 - self.a.z as i128;
        let vx: i128 = self.c.x as i128 - self.a.x as i128;
        let vy: i128 = self.c.y as i128 - self.a.y as i128;
        let vz: i128 = self.c.z as i128 - self.a.z as i128;
        if !fits128(ux) || !fits128(uy) || !fits128(uz) || !fits128(vx) || !fits128(vy)
            || !fits128(vz) {
            return Option::None;
        }
        let u = Vec3 { x: ux as i64, y: uy as i64, z: uz as i64 };
        let v = Vec3 { x: vx as i64, y: vy as i64, z: vz as i64 };
        let n: Vec3 = match u.cross(v) {
            Option::Some(c) => c,
            Option::None => {
                return Option::None;
            },
        };
        if n.x < -NORMAL_BOUND || n.x > NORMAL_BOUND || n.y < -NORMAL_BOUND || n.y > NORMAL_BOUND
            || n.z < -NORMAL_BOUND || n.z > NORMAL_BOUND {
            return Option::None;
        }
        if n.magnitude2_wide() == 0 {
            return Option::None;
        }
        let ang128: i128 = n.dot_wide(ray.direction);
        if !fits128(ang128) {
            return Option::None;
        }
        let ang: i64 = ang128 as i64;
        if ang == 0 {
            return Option::None;
        }
        let w0x: i128 = ray.origin.x as i128 - self.a.x as i128;
        let w0y: i128 = ray.origin.y as i128 - self.a.y as i128;
        let w0z: i128 = ray.origin.z as i128 - self.a.z as i128;
        if !fits128(w0x) || !fits128(w0y) || !fits128(w0z) {
            return Option::None;
        }
        let w0 = Vec3 { x: w0x as i64, y: w0y as i64, z: w0z as i64 };
        let num128: i128 = -(n.dot_wide(w0));
        if !fits128(num128) {
            return Option::None;
        }
        let num: i64 = num128 as i64;
        let dist128: i128 = tdiv128(crate::fixed::mul_wide(num, SCALE), ang as i128);
        proof {
            crate::fixed::lemma_qtrunc_abs_le((num as int) * (SCALE as int), ang as int);
        }
        if !fits128(dist128) {
            return Option::None;
        }
        let dist: i64 = dist128 as i64;
        if dist < 0 {
            return Option::None;
        }
        proof {
            lemma_fmul_abs_within(
                ray@.direction.x,
                dist as int,
                0x8000_0000_0000_0000,
                0x8000_0000_0000_0000,
            );
            lemma_fmul_abs_within(
                ray@.direction.y,
                dist as int,
                0x8000_0000_0000_0000,
                0x8000_0000_0000_0000,
            );
            lemma_fmul_abs_within(
                ray@.direction.z,
                dist as int,
                0x8000_0000_0000_0000,
                0x8000_0000_0000_0000,
            );
        }
        let px: i128 = ray.origin.x as i128 + fmul_wide(ray.direction.x, dist);
        let py: i128 = ray.origin.y as i128 + fmul_wide(ray.direction.y, dist);
        let pz: i128 = ray.origin.z as i128 + fmul_wide(ray.direction.z, dist);
        if !fits128(px) || !fits128(py) || !fits128(pz) {
            return Option::None;
        }
        let pos = Vec3 { x: px as i64, y: py as i64, z: pz as i64 };
        let wx: i128 = pos.x as i128 - self.a.x as i128;
        let wy: i128 = pos.y as i128 - self.a.y as i128;
        let wz: i128 = pos.z as i128 - self.a.z as i128;
        if !fits128(wx) || !fits128(wy) || !fits128(wz) {
            return Option::None;
        }
        let w = Vec3 { x: wx as i64, y: wy as i64, z: wz as i64 };
        let uu: i128 = u.dot_wide(u);
        let uv: i128 = u.dot_wide(v);
        let vv: i128 = v.dot_wide(v);
        let wu: i128 = w.dot_wide(u);
        let wv: i128 = w.dot_wide(v);
        let bary: i128 = BARY_BOUND as i128;
        if uu < -bary || uu > bary || uv < -bary || uv > bary || vv < -bary || vv > bary || wu
            < -bary || wu > bary || wv < -bary || wv > bary {
            return Option::None;
        }
        let den: i128 = mul_bary(uv, uv) - mul_bary(uu, vv);
        if den == 0 {
            return Option::None;
        }
        let num_s: i128 = mul_bary(uv, wv) - mul_bary(vv, wu);
        let num_t: i128 = mul_bary(uv, wu) - mul_bary(uu, wv);
        let s128: i128 = tdiv128(num_s * 65536, den);
        let t128: i128 = tdiv128(num_t * 65536, den);
        if !fits128(s128) || !fits128(t128) {
            return Option::None;
        }
        let s: i64 = s128 as i64;
        let tt: i64 = t128 as i64;
        if s < 0 || s > ONE || tt < 0 || (s as i128) + (tt as i128) > ONE as i128 {
            return Option::None;
        }
        Option::Some(Hit::new(dist, pos, n, self.material))
    }
}

/// Product of two barycentric dot products, widened so it cannot overflow.
fn mul_bary(a: i128, b: i128) -> (r: i128)
    requires
        abs_i(a as int) <= BARY_BOUND as int,
        abs_i(b as int) <= BARY_BOUND as int,
    ensures
        r as int == (a as int) * (b as int),
        abs_i(r as int) <= 0x8000_0000_0000 * 0x8000_0000_0000,
{
    proof {
        assert((a as int) * (b as int) <= 0x8000_0000_0000 * 0x8000_0000_0000 && (a as int) * (
        b as int) >= -(0x8000_0000_0000 * 0x8000_0000_0000)) by (nonlinear_arith)
            requires
                abs_i(a as int) <= 0x7FFF_FFFF_FFFF,
                abs_i(b as int) <= 0x7FFF_FFFF_FFFF,
        ;
    }
    a * b
}

/// The view of an optional hit.
pub open spec fn opt_hit_view(h: Option<Hit>) -> Option<HitView> {
    match h {
        Option::Some(x) => Option::Some(x@),
        Option::None => Option::None,
    }
}

/// The nearer of two optional hits; on an exact tie the first one wins, as
/// the fold over a group's children keeps the earliest nearest child.
pub open spec fn combine_nearest(first: Option<HitView>, second: Option<HitView>) -> Option<
    HitView,
> {
    match first {
        Option::None => second,
        Option::Some(f) => match second {
            Option::None => Option::Some(f),
            Option::Some(s) => if s.distance < f.distance {
                Option::Some(s)
            } else {
                Option::Some(f)
            },
        },
    }
}

/// Intersection model of a whole surface tree.
pub open spec fn surface_intersect_s(s: Surface, ray: RayView) -> Option<HitView>
    decreases s,
{
    match s {
        Surface::Sphere(sp) => sphere_intersect_s(sp, ray),
        Surface::Triangle(t) => triangle_intersect_s(t, ray),
        Surface::Group(g) => group_intersect_s(g.intersectables@, ray),
    }
}

/// Intersection model of a group: the nearest hit over all children.
pub open spec fn group_intersect_s(children: Seq<Surface>, ray: RayView) -> Option<HitView>
    decreases children,
{
    if children.len() == 0 {
        Option::None
    } else {
        combine_nearest(
            group_intersect_s(children.drop_last(), ray),
            surface_intersect_s(children.last(), ray),
        )
    }
}

/// Well-formedness of a surface tree: every material in it is well-formed.
pub open spec fn surface_wf(s: Surface) -> bool
    decreases s,
{
    match s {
        Surface::Sphere(sp) => material_wf(sp.material),
        Surface::Triangle(t) => material_wf(t.material),
        Surface::Group(g) => group_wf(g.intersectables@),
    }
}

/// Well-formedness of a group's children.
pub open spec fn group_wf(children: Seq<Surface>) -> bool
    decreases children,
{
    if children.len() == 0 {
        true
    } else {
        group_wf(children.drop_last()) && surface_wf(children.last())
    }
}

impl Surface {
    /// Nearest intersection of a ray with this surface tree.
    pub fn intersect(&self, ray: &Ray) -> (h: Option<Hit>)
        ensures
            opt_hit_view(h) == surface_intersect_s(*self, ray@),
        decreases *self,
    {
        match self {
            Surface::Sphere(sp) => sp.intersect(ray),
            Surface::Triangle(t) => t.intersect(ray),
            Surface::Group(g) => g.intersect(ray),
        }
    }

    /// Whether every material in this surface tree is well-formed.
    pub fn wf_check(&self) -> (b: bool)
        ensures
            b == surface_wf(*self),
        decreases *self,
    {
        match self {
            Surface::Sphere(sp) => sp.material.wf_check(),
            Surface::Triangle(t) => t.material.wf_check(),
            Surface::Group(g) => g.wf_check(),
        }
    }
}

impl Intersectables {
    /// Whether every material under this group is well-formed.
    pub fn wf_check(&self) -> (b: bool)
        ensures
            b == group_wf(self.intersectables@),
        decreases *self,
    {
        let mut i: usize = 0;
        let mut ok: bool = true;
        while i < self.intersectables.len()
            invariant
                0 <= i <= self.intersectables@.len(),
                ok == group_wf(self.intersectables@.take(i as int)),
            decreases self.intersectables@.len() - i,
        {
            proof {
                broadcast use vstd::seq::axiom_seq_index_decreases;
                broadcast use vstd::std_specs::vec::axiom_vec_decreases_to_view;

                assert(decreases_to!(*self => self.intersectables@[i as int]));
                assert(self.intersectables@.take(i as int + 1).drop_last() =~= self
                    .intersectables@.take(i as int));
                assert(self.intersectables@.take(i as int + 1).last() == self.intersectables@[i
                    as int]);
            }
            let child_ok = self.intersectables[i].wf_check();
            ok = ok && child_ok;
            i = i + 1;
        }
        proof {
            assert(self.intersectables@.take(self.intersectables@.len() as int) =~= self
                .intersectables@);
        }
        ok
    }

    /// The nearest hit over all children, as the composite's linear scan
    /// computes it.
    pub fn intersect(&self, ray: &Ray) -> (h: Option<Hit>)
        ensures
            opt_hit_view(h) == group_intersect_s(self.intersectables@, ray@),
        decreases *self,
    {
        let mut best: Option<Hit> = Option::None;
        let mut i: usize = 0;
        while i < self.intersectables.len()
            invariant
                0 <= i <= self.intersectables@.len(),
                opt_hit_view(best) == group_intersect_s(self.intersectables@.take(i as int), ray@),
            decreases self.intersectables@.len() - i,
        {
            proof {
                assert(self.intersectables@.take(i as int + 1).drop_last() =~= self
                    .intersectables@.take(i as int));
                assert(self.intersectables@.take(i as int + 1).last() == self.intersectables@[i
                    as int]);
            }
            proof {
                broadcast use vstd::seq::axiom_seq_index_decreases;
                broadcast use vstd::std_specs::vec::axiom_vec_decreases_to_view;

                assert(decreases_to!(*self => self.intersectables@[i as int]));
            }
            let child_hit = self.intersectables[i].intersect(ray);
            match child_hit {
                Option::Some(c) => {
                    match &best {
                        Option::None => {
                            best = Option::Some(c);
                        },
                        Option::Some(b) => {
                            if c.distance < b.distance {
                                best = Option::Some(c);
                            }
                        },
                    }
                },
                Option::None => {},
            }
            i = i + 1;
        }
        proof {
            assert(self.intersectables@.take(self.intersectables@.len() as int) =~= self
                .intersectables@);
        }
        best
    }
}

/// Every hit a surface model reports has a nonnegative distance, a bounded
/// normal, and, when the surface is well-formed, a well-formed material.
pub proof fn lemma_surface_hit_props(s: Surface, ray: RayView)
    ensures
        match surface_intersect_s(s, ray) {
            Option::Some(h) => {
                &&& 0 <= h.distance
                &&& comps_within(h.normal, NORMAL_BOUND as int)
                &&& (surface_wf(s) ==> crate::hit::hit_wf(h))
            },
            Option::None => true,
        },
    decreases s,
{
    match s {
        Surface::Sphere(sp) => {},
        Surface::Triangle(t) => {},
        Surface::Group(g) => {
            lemma_group_hit_props(g.intersectables@, ray);
        },
    }
}

/// As `lemma_surface_hit_props`, for a group's children.
pub proof fn lemma_group_hit_props(children: Seq<Surface>, ray: RayView)
    ensures
        match group_intersect_s(children, ray) {
            Option::Some(h) => {
                &&& 0 <= h.distance
                &&& comps_within(h.normal, NORMAL_BOUND as int)
                &&& (group_wf(children) ==> crate::hit::hit_wf(h))
            },
            Option::None => true,
        },
    decreases children,
{
    if children.len() > 0 {
        lemma_group_hit_props(children.drop_last(), ray);
        lemma_surface_hit_props(children.last(), ray);
    }
}

/// Composite nearest-hit law: the hit a group reports is the nearest over
/// its children. Whenever any child reports a hit the group does too; the
/// group's distance is a lower bound on every child's hit distance; and the
/// group's hit is one of the children's hits.
pub proof fn lemma_group_nearest(children: Seq<Surface>, ray: RayView)
    ensures
        forall|i: int|
            0 <= i < children.len() && #[trigger] surface_intersect_s(children[i], ray) is Some
                ==> group_intersect_s(children, ray) is Some,
        forall|i: int|
            0 <= i < children.len() && #[trigger] surface_intersect_s(children[i], ray) is Some
                ==> group_intersect_s(children, ray)->Some_0.distance <= surface_intersect_s(
                children[i],
                ray,
            )->Some_0.distance,
        group_intersect_s(children, ray) is Some ==> exists|i: int|
            0 <= i < children.len() && #[trigger] surface_intersect_s(children[i], ray)
                == group_intersect_s(children, ray),
    decreases children,
{
    if children.len() > 0 {
        let rest = children.drop_last();
        lemma_group_nearest(rest, ray);
        assert(forall|i: int| 0 <= i < rest.len() ==> rest[i] == children[i]);
        assert(children.last() == children[children.len() - 1]);
        let g = group_intersect_s(children, ray);
        let gr = group_intersect_s(rest, ray);
        let lh = surface_intersect_s(children.last(), ray);
        if g is Some {
            if gr is Some && g == gr {
                let j = choose|i: int|
                    0 <= i < rest.len() && #[trigger] surface_intersect_s(rest[i], ray) == gr;
                assert(surface_intersect_s(children[j], ray) == g);
            } else {
                assert(g == lh);
                assert(surface_intersect_s(children[children.len() - 1], ray) == g);
            }
        }
    }
}

} // verus!
