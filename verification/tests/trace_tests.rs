use raytracer::colour::{black, Colour};
use raytracer::fixed::ONE;
use raytracer::hit::Hit;
use raytracer::intersectable::{Intersectables, Surface, Triangle};
use raytracer::material::{
    CheckerMaterial, DiffuseMaterial, LightMaterial, Material, MirrorMaterial, SkyBoxMaterial,
};
use raytracer::ray::Ray;
use raytracer::scene::{ConfigError, Scene};
use raytracer::sphere::Sphere;
use raytracer::vector::Vec3;

fn white_tint() -> Colour {
    Colour { r: ONE, g: ONE, b: ONE, a: ONE }
}

fn test_light() -> Colour {
    Colour { r: 13107, g: 26214, b: 39321, a: ONE }
}

fn light_background() -> Material {
    Material::Light(LightMaterial { colour: test_light() })
}

fn unit_z_ray(z: i64) -> Ray {
    Ray::new(Vec3::new(0, 0, z), Vec3::new(0, 0, ONE))
}

#[test]
fn sphere_intersection_distance_is_exact() {
    // A sphere of radius 5 at the origin, a ray from (0, 0, -6) aimed at
    // +z: the intersection distance is exactly 1.
    let sphere = Sphere {
        centre: Vec3::new(0, 0, 0),
        radius: 5 * ONE,
        material: light_background(),
    };
    let hit: Hit = sphere.intersect(&unit_z_ray(-6 * ONE)).unwrap();
    assert_eq!(hit.distance, ONE);
    assert_eq!(hit.position, Vec3::new(0, 0, -5 * ONE));
    assert_eq!(hit.normal, Vec3::new(0, 0, -ONE));
}

#[test]
fn sphere_behind_or_beside_the_ray_is_missed() {
    let sphere = Sphere {
        centre: Vec3::new(0, 0, 0),
        radius: ONE,
        material: light_background(),
    };
    // Origin outside, ray diverging.
    assert!(sphere.intersect(&unit_z_ray(3 * ONE)).is_none());
    // Ray passing beside the sphere.
    let beside = Ray::new(Vec3::new(5 * ONE, 0, -5 * ONE), Vec3::new(0, 0, ONE));
    assert!(sphere.intersect(&beside).is_none());
}

#[test]
fn zero_radius_sphere_never_intersects() {
    let sphere = Sphere {
        centre: Vec3::new(0, 0, 0),
        radius: 0,
        material: light_background(),
    };
    assert!(sphere.intersect(&unit_z_ray(-4 * ONE)).is_none());
}

#[test]
fn triangle_intersection_inside_and_outside() {
    let tri = Triangle {
        a: Vec3::new(-2 * ONE, -2 * ONE, 0),
        b: Vec3::new(2 * ONE, -2 * ONE, 0),
        c: Vec3::new(0, 2 * ONE, 0),
        material: light_background(),
    };
    // Straight through the centroid region.
    let hit = tri.intersect(&unit_z_ray(-3 * ONE)).unwrap();
    assert_eq!(hit.distance, 3 * ONE);
    assert_eq!(hit.position, Vec3::new(0, 0, 0));
    // Outside the triangle's extent.
    let outside = Ray::new(Vec3::new(5 * ONE, 5 * ONE, -3 * ONE), Vec3::new(0, 0, ONE));
    assert!(tri.intersect(&outside).is_none());
    // Parallel to the triangle's plane.
    let parallel = Ray::new(Vec3::new(0, 0, -3 * ONE), Vec3::new(ONE, 0, 0));
    assert!(tri.intersect(&parallel).is_none());
}

#[test]
fn degenerate_triangle_never_intersects() {
    let tri = Triangle {
        a: Vec3::new(0, 0, 0),
        b: Vec3::new(ONE, 0, 0),
        c: Vec3::new(2 * ONE, 0, 0),
        material: light_background(),
    };
    assert!(tri.intersect(&unit_z_ray(-3 * ONE)).is_none());
}

#[test]
fn composite_reports_the_nearest_of_two_overlapping_spheres() {
    let near = Sphere {
        centre: Vec3::new(0, 0, 0),
        radius: ONE,
        material: light_background(),
    };
    let far = Sphere {
        centre: Vec3::new(0, 0, ONE),
        radius: ONE,
        material: light_background(),
    };
    let ray = unit_z_ray(-3 * ONE);
    let d_near = near.intersect(&ray).unwrap().distance;
    let d_far = far.intersect(&ray).unwrap().distance;
    assert_eq!(d_near, 2 * ONE);
    assert_eq!(d_far, 3 * ONE);
    let group = Intersectables {
        intersectables: vec![Surface::Sphere(far), Surface::Sphere(near)],
    };
    let hit = group.intersect(&ray).unwrap();
    assert_eq!(hit.distance, d_near.min(d_far));
}

#[test]
fn empty_composite_never_intersects() {
    let group = Intersectables { intersectables: vec![] };
    assert!(group.intersect(&unit_z_ray(-3 * ONE)).is_none());
}

#[test]
fn depth_budget_exhaustion_returns_black() {
    let scene = Scene::new(
        3,
        Surface::Group(Intersectables { intersectables: vec![] }),
        light_background(),
    )
    .unwrap();
    let ray = unit_z_ray(-3 * ONE);
    assert_eq!(scene.cast_ray(&ray, 4), black());
    assert_eq!(scene.cast_ray(&ray, 255), black());
    // Within the budget the light background shines.
    assert_eq!(scene.cast_ray(&ray, 3), test_light());
}

#[test]
fn missing_all_geometry_returns_the_light_background() {
    let sphere = Sphere {
        centre: Vec3::new(100 * ONE, 0, 0),
        radius: ONE,
        material: light_background(),
    };
    let scene = Scene::new(
        5,
        Surface::Sphere(sphere),
        light_background(),
    )
    .unwrap();
    let c = scene.cast_ray(&unit_z_ray(-3 * ONE), 0);
    assert_eq!(c, test_light());
    assert_ne!(c, black());
}

#[test]
fn checker_material_is_deterministic_and_periodic() {
    let checker = CheckerMaterial { grid_size: ONE };
    let white = raytracer::colour::white();
    let black_c = black();
    let at = |x: i64, y: i64, z: i64| checker.colour_at(&Vec3::new(x, y, z));
    assert_eq!(at(0, 0, 0), white);
    // One full period along x gives the identical colour.
    assert_eq!(at(2 * ONE, 0, 0), at(0, 0, 0));
    assert_eq!(at(5 * ONE, 0, 0), at(3 * ONE, 0, 0));
    // The neighbouring cell flips the parity.
    assert_eq!(at(ONE, 0, 0), black_c);
    assert_eq!(at(ONE, ONE, 0), white);
}

#[test]
fn skybox_interpolates_between_bottom_and_top() {
    let bottom = Colour { r: ONE, g: ONE, b: ONE, a: ONE };
    let top = Colour { r: 0, g: 0, b: ONE, a: ONE };
    let sky = SkyBoxMaterial { colour_bottom: bottom, colour_top: top };
    assert_eq!(sky.colour_towards(&Vec3::new(0, ONE, 0)), top);
    assert_eq!(sky.colour_towards(&Vec3::new(0, -ONE, 0)), bottom);
    let horizon = sky.colour_towards(&Vec3::new(ONE, 0, 0));
    assert_eq!(horizon, Colour { r: 32768, g: 32768, b: ONE, a: ONE });
}

#[test]
fn mirror_bounces_into_the_background_light() {
    // A mirrored sphere sends the axial ray straight back out of the
    // scene; with a pure white tint the light background comes through
    // unchanged.
    let sphere = Sphere {
        centre: Vec3::new(0, 0, 0),
        radius: 5 * ONE,
        material: Material::Mirror(MirrorMaterial { colour: white_tint() }),
    };
    let scene = Scene::new(2, Surface::Sphere(sphere), light_background()).unwrap();
    let c = scene.cast_ray(&unit_z_ray(-6 * ONE), 0);
    assert_eq!(c, test_light());
}

#[test]
fn diffuse_background_averages_exhausted_samples() {
    // With a zero depth budget every diffuse sample comes back black, so
    // the average is black with the accumulated alpha: the fold starts
    // from black's opaque alpha, giving (1 + n) / n on that channel.
    let scene = Scene::new(
        0,
        Surface::Group(Intersectables { intersectables: vec![] }),
        Material::Diffuse(DiffuseMaterial { colour: white_tint(), secondary_rays: 2 }),
    )
    .unwrap();
    let c = scene.cast_ray(&unit_z_ray(-3 * ONE), 0);
    assert_eq!(c, Colour { r: 0, g: 0, b: 0, a: 3 * ONE / 2 });
}

#[test]
fn hemisphere_sampling_stays_in_range() {
    let n = Vec3::new(0, 0, ONE);
    for _ in 0..100 {
        let v = raytracer::material::unit_vector_in_hemisphere(&n);
        let m2 = v.magnitude2_wide();
        assert!(m2 >= 0);
        assert!(m2 <= 2 * (ONE as i128) * (ONE as i128));
    }
}

#[test]
fn scene_rejects_malformed_materials() {
    let bad = Material::Diffuse(DiffuseMaterial { colour: white_tint(), secondary_rays: 0 });
    let r = Scene::new(1, Surface::Group(Intersectables { intersectables: vec![] }), bad);
    assert_eq!(r.unwrap_err(), ConfigError::InvalidMaterial);
    let negative = Material::Light(LightMaterial {
        colour: Colour { r: -1, g: 0, b: 0, a: ONE },
    });
    let r2 = Scene::new(1, Surface::Group(Intersectables { intersectables: vec![] }), negative);
    assert_eq!(r2.unwrap_err(), ConfigError::InvalidMaterial);
}
