use pathtracer::bvh::BVHNode;
use pathtracer::camera::Camera;
use pathtracer::fixed::UNIT;
use pathtracer::hittable::HittableVec;
use pathtracer::material::Material;
use pathtracer::primitive::Primitive;
use pathtracer::ray::Ray;
use pathtracer::rng::Rng;
use pathtracer::sphere::Sphere;
use pathtracer::vec3::Vec3;

fn v(x: i64, y: i64, z: i64) -> Vec3 {
    Vec3 { x, y, z }
}

fn two_sphere_scene() -> (Vec<Primitive>, Vec<usize>, BVHNode) {
    let mut prims: Vec<Primitive> = Vec::new();
    prims.push(Primitive::Sphere(Sphere::new(
        v(0, 0, -5 * UNIT),
        UNIT,
        Material::Diffuse { color: v(UNIT / 2, UNIT / 4, UNIT / 4) },
    )));
    prims.push(Primitive::Sphere(Sphere::new(
        v(0, -101 * UNIT, -5 * UNIT),
        100 * UNIT,
        Material::Metal { color: v(UNIT, UNIT, UNIT), roughness: UNIT / 8 },
    )));
    let mut indices: Vec<usize> = (0..prims.len()).collect();
    let bvh = BVHNode::new(&prims, &mut indices, 0, prims.len(), 16);
    (prims, indices, bvh)
}

fn test_camera() -> Camera {
    let mut cam = Camera::new();
    cam.image_width = 4;
    cam.image_height = 3;
    cam.samples = 2;
    cam.ray_depth = 3;
    cam.look_from = v(0, 0, 0);
    cam.look_at = v(0, 0, -5 * UNIT);
    cam
}

#[test]
fn rng_is_deterministic_and_in_range() {
    let mut a = Rng::new(42);
    let mut b = Rng::new(42);
    for _ in 0..100 {
        let x = a.gen_random();
        let y = b.gen_random();
        assert_eq!(x, y);
        assert!(0 <= x && x < UNIT);
    }
    let mut c = Rng::new(43);
    let seq_a: Vec<i64> = (0..8).map(|_| a.gen_random()).collect();
    let seq_c: Vec<i64> = (0..8).map(|_| c.gen_random()).collect();
    assert_ne!(seq_a, seq_c);
}

#[test]
fn rng_range_stays_in_interval() {
    let mut rng = Rng::new(7);
    for _ in 0..200 {
        let x = rng.gen_random_range(-UNIT, UNIT);
        assert!(-UNIT <= x && x < UNIT);
    }
}

#[test]
fn rng_from_entropy_draws() {
    let mut rng = Rng::from_entropy();
    let x = rng.gen_random();
    assert!(0 <= x && x < UNIT);
}

#[test]
fn random_unit_vectors_have_unit_length() {
    let mut rng = Rng::new(11);
    for _ in 0..32 {
        let u = Vec3::random_unit_vec(&mut rng);
        let len = u.length();
        // exact arithmetic, but the square root still rounds down
        assert!((len - UNIT).abs() <= 512, "length {len}");
    }
}

#[test]
fn hemisphere_samples_face_the_normal() {
    let mut rng = Rng::new(13);
    let n = v(0, UNIT, 0);
    for _ in 0..32 {
        let u = Vec3::vec_in_unit_hemisphere(n, &mut rng);
        assert!(Vec3::dot(n, u) >= 0);
    }
}

#[test]
fn empty_material_absorbs_and_emission_emits() {
    let mut rng = Rng::new(3);
    let rec_ray = Ray::new(v(0, 0, 5 * UNIT), v(0, 0, -UNIT));
    let s = Sphere::new(v(0, 0, 0), UNIT, Material::Empty);
    let rec = s.ray_hit(&rec_ray, 0, i64::MAX).unwrap();
    assert!(Material::Empty.scatter(&rec_ray, &rec, &mut rng).is_none());
    let em = Material::Emission { color: v(UNIT, UNIT / 2, 0), strength: 2 * UNIT };
    assert!(em.scatter(&rec_ray, &rec, &mut rng).is_none());
    assert_eq!(em.emit(), v(2 * UNIT, UNIT, 0));
    assert_eq!(Material::Empty.emit(), v(0, 0, 0));
}

#[test]
fn diffuse_scatter_keeps_color_and_leaves_from_the_hit_point() {
    let mut rng = Rng::new(5);
    let ray = Ray::new(v(0, 0, 5 * UNIT), v(0, 0, -UNIT));
    let s = Sphere::new(v(0, 0, 0), UNIT, Material::Diffuse { color: v(UNIT / 2, UNIT / 4, 0) });
    let rec = s.ray_hit(&ray, 0, i64::MAX).unwrap();
    let (color, out) = rec.material.scatter(&ray, &rec, &mut rng).unwrap();
    assert_eq!(color, v(UNIT / 2, UNIT / 4, 0));
    assert_eq!(out.origin, rec.point);
}

#[test]
fn metal_and_dielectric_and_glossy_scatter() {
    let mut rng = Rng::new(9);
    let ray = Ray::new(v(0, 0, 5 * UNIT), v(0, 0, -UNIT));
    let s = Sphere::new(v(0, 0, 0), UNIT, Material::Empty);
    let rec = s.ray_hit(&ray, 0, i64::MAX).unwrap();
    let metal = Material::Metal { color: v(UNIT, UNIT, 0), roughness: 0 };
    assert!(metal.scatter(&ray, &rec, &mut rng).is_some());
    let glass = Material::Dielectric { ior: 3 * UNIT / 2 };
    let (color, _) = glass.scatter(&ray, &rec, &mut rng).unwrap();
    assert_eq!(color, v(UNIT, UNIT, UNIT));
    let glossy = Material::Glossy { color: v(UNIT, 0, 0), specularity: UNIT / 8, roughness: UNIT / 4 };
    assert!(glossy.scatter(&ray, &rec, &mut rng).is_some());
}

#[test]
fn trace_with_zero_depth_is_black() {
    let (prims, indices, bvh) = two_sphere_scene();
    let cam = test_camera();
    let mut rng = Rng::new(1);
    let ray = Ray::new(v(0, 0, 0), v(0, 0, -UNIT));
    let c = cam.ray_color2(&ray, &bvh, &prims, &indices, 0, &mut rng);
    assert_eq!(c, v(0, 0, 0));
    let world = HittableVec::new();
    let c2 = cam.ray_color(&ray, &world, 0, &mut rng);
    assert_eq!(c2, v(0, 0, 0));
}

#[test]
fn escaped_rays_return_the_sky_gradient() {
    let cam = test_camera();
    let world = HittableVec::new();
    let mut rng = Rng::new(1);
    let down = Ray::new(v(0, 0, 0), v(0, 0, -UNIT));
    let c = cam.ray_color(&down, &world, 5, &mut rng);
    assert_eq!(c, v(49152, 55705, 65536));
    let up = Ray::new(v(0, 0, 0), v(0, UNIT, 0));
    let c_up = cam.ray_color(&up, &world, 5, &mut rng);
    // straight up is pure sky blue
    assert_eq!(c_up, v(32768, 45875, 65536));
}

#[test]
fn rendering_twice_with_one_seed_is_identical() {
    let (prims, indices, bvh) = two_sphere_scene();
    let mut cam1 = test_camera();
    let mut cam2 = test_camera();
    cam1.render(&bvh, &prims, &indices, 0xDEADBEEF);
    cam2.render(&bvh, &prims, &indices, 0xDEADBEEF);
    assert_eq!(cam1.output.pixels.len(), 12);
    assert_eq!(cam1.output.pixels, cam2.output.pixels);
    let mut cam3 = test_camera();
    cam3.render(&bvh, &prims, &indices, 0xF00D);
    assert_eq!(cam3.output.pixels.len(), 12);
    assert_ne!(cam1.output.pixels, cam3.output.pixels);
}

#[test]
fn render_rows_compose_the_image() {
    let (prims, indices, bvh) = two_sphere_scene();
    let mut cam = test_camera();
    cam.render(&bvh, &prims, &indices, 77);
    // the same rows, rendered independently, give the same pixels
    let mut by_rows: Vec<Vec3> = Vec::new();
    for y in 0..cam.image_height {
        let row = cam.render_row(&bvh, &prims, &indices, y, 77);
        assert_eq!(row.len(), cam.image_width as usize);
        by_rows.extend(row);
    }
    assert_eq!(cam.output.pixels, by_rows);
}

#[test]
fn camera_derives_the_viewport_exactly() {
    let mut cam = Camera::new();
    cam.image_width = 2;
    cam.image_height = 2;
    cam.tan_half_fov = UNIT; // a 90 degree vertical field of view
    cam.look_from = v(0, 0, 0);
    cam.look_at = v(0, 0, -UNIT);
    cam.init();
    assert_eq!(cam.camera_center, v(0, 0, 0));
    assert_eq!(cam.del_w, v(UNIT, 0, 0));
    assert_eq!(cam.del_h, v(0, -UNIT, 0));
    assert_eq!(
        cam.upper_left_pixel,
        v(-UNIT + UNIT / 2, UNIT - UNIT / 2, -UNIT)
    );
}

#[test]
fn write_color_applies_exposure_and_gamma() {
    assert_eq!(v(UNIT, UNIT, UNIT).write_color(1), (255, 255, 255));
    assert_eq!(v(UNIT / 4, 0, UNIT).write_color(1), (127, 0, 255));
    // two samples of full white average back to full white
    assert_eq!(v(2 * UNIT, 2 * UNIT, 2 * UNIT).write_color(2), (255, 255, 255));
    // values above one clamp at the byte range
    assert_eq!(v(9 * UNIT, 0, 0).write_color(1), (255, 0, 0));
}
