use raytracer::camera::Camera;
use raytracer::colour::Colour;
use raytracer::command_line_options::CommandLineOptions;
use raytracer::fixed::ONE;
use raytracer::intersectable::{Intersectables, Surface};
use raytracer::material::{LightMaterial, Material};
use raytracer::ppm_image::write_ppm_image;
use raytracer::renderer::{chunk_bounds, Renderer};
use raytracer::scene::{ConfigError, Scene};
use raytracer::vector::Vec3;
use raytracer::viewport::Viewport;

fn empty_scene_with_light(colour: Colour) -> Scene {
    Scene::new(
        2,
        Surface::Group(Intersectables { intersectables: vec![] }),
        Material::Light(LightMaterial { colour }),
    )
    .unwrap()
}

#[test]
fn default_camera_basis_is_exact() {
    let cam = Camera::default();
    assert_eq!(cam.forward(), Vec3::new(0, 0, -ONE));
    assert_eq!(cam.up(), Vec3::new(0, ONE, 0));
    assert_eq!(cam.left(), Vec3::new(-ONE, 0, 0));
    assert_eq!(cam.fov_scale, 2 * ONE);
    assert_eq!(cam.origin, Vec3::new(0, 0, 5 * ONE));
}

#[test]
fn camera_translation_moves_against_the_vector() {
    let mut cam = Camera::default();
    cam.translate(Vec3::new(ONE, 0, -ONE));
    assert_eq!(cam.origin, Vec3::new(-ONE, 0, 6 * ONE));
}

#[test]
fn camera_rejects_degenerate_or_out_of_range_configurations() {
    let r = Camera::new(Vec3::new(0, 0, 0), Vec3::new(0, 0, 0), Vec3::new(0, ONE, 0), 2 * ONE);
    assert_eq!(r.unwrap_err(), ConfigError::InvalidCamera);
    let r2 = Camera::new(Vec3::new(0, 0, 0), Vec3::new(0, 0, -ONE), Vec3::new(0, ONE, 0), 0);
    assert_eq!(r2.unwrap_err(), ConfigError::InvalidCamera);
    // Up parallel to forward leaves no left axis.
    let r3 = Camera::new(
        Vec3::new(0, 0, 0),
        Vec3::new(0, 0, -ONE),
        Vec3::new(0, 0, ONE),
        2 * ONE,
    );
    assert_eq!(r3.unwrap_err(), ConfigError::InvalidCamera);
}

#[test]
fn viewport_produces_width_times_height_rays() {
    let cam = Camera::default();
    let vp = cam.get_viewport(4, 4).unwrap();
    let rays = vp.rays();
    assert_eq!(rays.len(), 16);
}

#[test]
fn viewport_centre_ray_matches_the_forward_vector() {
    let cam = Camera::default();
    let vp = cam.get_viewport(4, 4).unwrap();
    let centre = vp.ray_at(2, 2);
    assert_eq!(centre.direction, cam.forward());
    let rays = vp.rays();
    assert_eq!(rays[2 * 4 + 2], centre);
}

#[test]
fn viewport_enumerates_rays_row_major() {
    let cam = Camera::default();
    let mut vp = cam.get_viewport(2, 2).unwrap();
    let all = cam.get_viewport(2, 2).unwrap().rays();
    let mut seen = Vec::new();
    while let Some(ray) = vp.next() {
        seen.push(ray);
    }
    assert_eq!(seen.len(), 4);
    for k in 0..4 {
        assert_eq!(seen[k], all[k]);
    }
}

#[test]
fn viewport_rejects_undersized_images() {
    let cam = Camera::default();
    assert_eq!(cam.get_viewport(1, 4).unwrap_err(), ConfigError::InvalidImageSize);
    assert_eq!(cam.get_viewport(4, 0).unwrap_err(), ConfigError::InvalidImageSize);
    let r = Viewport::new(
        4,
        4,
        Vec3::new(-ONE, 0, 0),
        Vec3::new(0, ONE, 0),
        Vec3::new(0, 0, -ONE),
        Vec3::new(0, 0, 0),
        0,
    );
    assert_eq!(r.unwrap_err(), ConfigError::InvalidCamera);
}

#[test]
fn renderer_fills_every_pixel_with_the_background_light() {
    let light = Colour { r: 13107, g: 26214, b: 39321, a: ONE };
    let renderer = Renderer {
        num_workers: 2,
        num_chunks: 4,
        scene: empty_scene_with_light(light),
    };
    let cam = Camera::default();
    let img = renderer.render(&cam, 4, 2).unwrap();
    assert_eq!(img.len(), 8);
    for pixel in img {
        assert_eq!(pixel, light);
    }
}

#[test]
fn renderer_rejects_bad_worker_and_chunk_counts() {
    let light = Colour { r: ONE, g: ONE, b: ONE, a: ONE };
    let cam = Camera::default();
    let mut renderer = Renderer {
        num_workers: 0,
        num_chunks: 4,
        scene: empty_scene_with_light(light),
    };
    assert_eq!(renderer.render(&cam, 4, 2).unwrap_err(), ConfigError::InvalidWorkerCount);
    renderer.num_workers = 1;
    renderer.num_chunks = 0;
    assert_eq!(renderer.render(&cam, 4, 2).unwrap_err(), ConfigError::InvalidChunkCount);
    renderer.num_chunks = 9;
    assert_eq!(renderer.render(&cam, 4, 2).unwrap_err(), ConfigError::InvalidChunkCount);
}

#[test]
fn chunk_bounds_partition_the_pixel_range() {
    let v = chunk_bounds(10, 3).unwrap();
    assert_eq!(v, vec![(0, 3), (3, 6), (6, 9), (9, 10)]);
    let whole = chunk_bounds(8, 1).unwrap();
    assert_eq!(whole, vec![(0, 8)]);
    assert_eq!(chunk_bounds(5, 0).unwrap_err(), ConfigError::InvalidChunkCount);
    assert_eq!(chunk_bounds(5, 6).unwrap_err(), ConfigError::InvalidChunkCount);
}

#[test]
fn ppm_encoding_is_exact() {
    let image = vec![Colour { r: ONE, g: 0, b: 32768, a: ONE }];
    let bytes = write_ppm_image(1, 1, &image);
    assert_eq!(String::from_utf8(bytes).unwrap(), "P3 1 1 255\n255 0 127\n");
}

#[test]
fn ppm_clamps_out_of_range_channels() {
    let image = vec![Colour { r: 2 * ONE, g: -ONE, b: 0, a: ONE }];
    let bytes = write_ppm_image(1, 1, &image);
    assert_eq!(String::from_utf8(bytes).unwrap(), "P3 1 1 255\n255 0 0\n");
}

#[test]
pub fn write_ppm_image_test() {
    let to_fixed = |v: f32| (v * 65536.0) as i64;
    let image = vec![
        Colour { r: to_fixed(0.1), g: to_fixed(0.2), b: to_fixed(0.3), a: to_fixed(0.5) },
        Colour { r: to_fixed(0.1), g: to_fixed(0.2), b: to_fixed(0.3), a: to_fixed(0.5) },
        Colour { r: to_fixed(0.1), g: to_fixed(0.2), b: to_fixed(0.3), a: to_fixed(0.5) },
        Colour { r: to_fixed(0.1), g: to_fixed(0.5), b: to_fixed(1.0), a: to_fixed(0.5) },
    ];
    let ppm_image = write_ppm_image(2, 2, &image);

    println!("{}", String::from_utf8(ppm_image).unwrap());
}

#[test]
fn command_line_defaults_are_the_documented_ones() {
    let opts = CommandLineOptions::default();
    assert_eq!(opts.scene, "scene.json");
    assert_eq!(opts.width, 1920);
    assert_eq!(opts.height, 1024);
    assert_eq!(opts.num_workers, 1);
    assert_eq!(opts.num_chunks, 100);
    assert_eq!(opts.image_name, "image.ppm");
}
