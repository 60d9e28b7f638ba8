use pathtracer::aabb::AABB;
use pathtracer::fixed::{mul_fx_e, sqrt_fx_e, UNIT};
use pathtracer::material::Material;
use pathtracer::plane::Plane;
use pathtracer::ray::Ray;
use pathtracer::sphere::Sphere;
use pathtracer::triangle::Triangle;
use pathtracer::vec3::Vec3;

fn v(x: i64, y: i64, z: i64) -> Vec3 {
    Vec3 { x, y, z }
}

#[test]
fn fixed_point_products_are_exact() {
    assert_eq!(mul_fx_e(2 * UNIT, 3 * UNIT), 6 * UNIT);
    assert_eq!(mul_fx_e(-2 * UNIT, 3 * UNIT), -6 * UNIT);
    assert_eq!(mul_fx_e(UNIT / 2, UNIT / 2), UNIT / 4);
    assert_eq!(sqrt_fx_e(4 * UNIT), 2 * UNIT);
    assert_eq!(sqrt_fx_e(UNIT / 4), UNIT / 2);
    assert_eq!(sqrt_fx_e(0), 0);
    assert_eq!(sqrt_fx_e(-5 * UNIT), 0);
}

#[test]
fn vector_algebra_exact_values() {
    let a = v(UNIT, 2 * UNIT, 3 * UNIT);
    let b = v(4 * UNIT, -5 * UNIT, 6 * UNIT);
    assert_eq!(Vec3::dot(a, b), (4 - 10 + 18) * UNIT);
    let c = Vec3::cross(v(UNIT, 0, 0), v(0, UNIT, 0));
    assert_eq!(c, v(0, 0, UNIT));
    let r = Vec3::reflect(v(UNIT, -UNIT, 0), v(0, UNIT, 0));
    assert_eq!(r, v(UNIT, UNIT, 0));
    assert_eq!(v(3 * UNIT, 4 * UNIT, 0).length(), 5 * UNIT);
    let u = v(0, 0, 7 * UNIT).unit();
    assert_eq!(u, v(0, 0, UNIT));
}

#[test]
fn sphere_entry_hit_is_at_five_minus_radius() {
    let s = Sphere::new(v(0, 0, 0), UNIT, Material::Empty);
    let ray = Ray::new(v(0, 0, 5 * UNIT), v(0, 0, -UNIT));
    let rec = s.ray_hit(&ray, 0, i64::MAX).expect("the ray points at the sphere");
    assert_eq!(rec.t, 4 * UNIT);
    assert_eq!(rec.point, v(0, 0, UNIT));
    assert!(rec.outside_face);
    assert_eq!(rec.normal, v(0, 0, UNIT));
}

#[test]
fn sphere_missed_by_perpendicular_offset() {
    let s = Sphere::new(v(0, 0, 0), UNIT, Material::Empty);
    let ray = Ray::new(v(0, 2 * UNIT, 5 * UNIT), v(0, 0, -UNIT));
    assert!(s.ray_hit(&ray, 0, i64::MAX).is_none());
}

#[test]
fn sphere_hit_outside_parameter_range_is_none() {
    let s = Sphere::new(v(0, 0, 0), UNIT, Material::Empty);
    let ray = Ray::new(v(0, 0, 5 * UNIT), v(0, 0, -UNIT));
    assert!(s.ray_hit(&ray, 0, 3 * UNIT).is_none());
    assert!(s.ray_hit(&ray, 7 * UNIT, i64::MAX).is_none());
}

#[test]
fn triangle_hit_at_barycentric_center() {
    let t = Triangle::new(v(0, 0, 0), v(UNIT, 0, 0), v(0, UNIT, 0), Material::Empty);
    let third = UNIT / 3;
    let ray = Ray::new(v(third, third, 5 * UNIT), v(0, 0, -UNIT));
    let rec = t.ray_hit(&ray, 0, i64::MAX).expect("the center of the triangle is hit");
    assert_eq!(rec.t, 5 * UNIT);
    assert_eq!(rec.point, v(third, third, 0));
}

#[test]
fn triangle_plane_hit_outside_edges_is_none() {
    let t = Triangle::new(v(0, 0, 0), v(UNIT, 0, 0), v(0, UNIT, 0), Material::Empty);
    let ray = Ray::new(v(2 * UNIT, 2 * UNIT, 5 * UNIT), v(0, 0, -UNIT));
    assert!(t.ray_hit(&ray, 0, i64::MAX).is_none());
}

#[test]
fn triangle_parallel_ray_is_none() {
    let t = Triangle::new(v(0, 0, 0), v(UNIT, 0, 0), v(0, UNIT, 0), Material::Empty);
    let ray = Ray::new(v(0, 0, UNIT), v(UNIT, 0, 0));
    assert!(t.ray_hit(&ray, 0, i64::MAX).is_none());
}

#[test]
fn plane_hit_and_parallel_miss() {
    let p = Plane::new(v(0, 0, 0), v(0, UNIT, 0), Material::Empty);
    let down = Ray::new(v(3 * UNIT, 2 * UNIT, 0), v(0, -UNIT, 0));
    let rec = p.ray_hit(&down, 0, i64::MAX).expect("the ray points at the plane");
    assert_eq!(rec.t, 2 * UNIT);
    assert_eq!(rec.point, v(3 * UNIT, 0, 0));
    let along = Ray::new(v(0, 2 * UNIT, 0), v(UNIT, 0, 0));
    assert!(p.ray_hit(&along, 0, i64::MAX).is_none());
}

#[test]
fn aabb_slab_test_hits_and_misses() {
    let mut b = AABB::default();
    b.add(v(-UNIT, -UNIT, -UNIT));
    b.add(v(UNIT, UNIT, UNIT));
    let hit = Ray::new(v(0, 0, 5 * UNIT), v(0, 0, -UNIT));
    assert!(b.hit(&hit));
    let miss = Ray::new(v(5 * UNIT, 5 * UNIT, 5 * UNIT), v(0, 0, -UNIT));
    assert!(!b.hit(&miss));
    let parallel_inside = Ray::new(v(0, 0, 9 * UNIT), v(0, 0, -UNIT));
    assert!(b.hit(&parallel_inside));
    let parallel_outside = Ray::new(v(3 * UNIT, 0, 9 * UNIT), v(0, 0, -UNIT));
    assert!(!b.hit(&parallel_outside));
}

#[test]
fn aabb_hit_symmetric_under_axis_permutation() {
    let mut b = AABB::default();
    b.add(v(-UNIT, -2 * UNIT, 3 * UNIT));
    b.add(v(UNIT, UNIT, 5 * UNIT));
    let r = Ray::new(v(0, 7 * UNIT, 4 * UNIT), v(UNIT / 8, -UNIT, UNIT / 4));
    // the same scene with y and z exchanged everywhere
    let mut bp = AABB::default();
    bp.add(v(-UNIT, 3 * UNIT, -2 * UNIT));
    bp.add(v(UNIT, 5 * UNIT, UNIT));
    let rp = Ray::new(v(0, 4 * UNIT, 7 * UNIT), v(UNIT / 8, UNIT / 4, -UNIT));
    assert_eq!(b.hit(&r), bp.hit(&rp));
}

#[test]
fn aabb_hit_invariant_under_corner_exchange() {
    // handing the corners over in either order gives the same slab test
    // wherever the two corner parameters exist, i.e. on directions with no
    // zero component, since each axis interval is order-normalized
    let lo = v(-UNIT, -2 * UNIT, 3 * UNIT);
    let hi = v(UNIT, UNIT, 5 * UNIT);
    let b = AABB::new(lo, hi);
    let b_swapped = AABB::new(hi, lo);
    let rays = [
        Ray::new(v(0, 0, 0), v(UNIT / 8, UNIT / 8, UNIT)),
        Ray::new(v(0, 0, 0), v(UNIT, UNIT, -UNIT)),
        Ray::new(v(9 * UNIT, 0, 4 * UNIT), v(-UNIT, UNIT / 16, UNIT / 16)),
        Ray::new(v(0, 5 * UNIT, 4 * UNIT), v(UNIT / 16, -UNIT / 16, -UNIT)),
    ];
    for ray in &rays {
        assert_eq!(b.hit(ray), b_swapped.hit(ray));
    }
}

#[test]
fn aabb_join_is_commutative_and_componentwise() {
    let mut a = AABB::default();
    a.add(v(-UNIT, 0, 0));
    a.add(v(UNIT, UNIT, UNIT));
    let mut b = AABB::default();
    b.add(v(0, -2 * UNIT, 0));
    b.add(v(3 * UNIT, 0, UNIT / 2));
    let mut ab = a;
    ab.join(&b);
    let mut ba = b;
    ba.join(&a);
    assert_eq!(ab.min, ba.min);
    assert_eq!(ab.max, ba.max);
    assert_eq!(ab.min, v(-UNIT, -2 * UNIT, 0));
    assert_eq!(ab.max, v(3 * UNIT, UNIT, UNIT));
}

#[test]
fn aabb_join_with_empty_is_identity() {
    let mut a = AABB::default();
    a.add(v(-UNIT, -UNIT, -UNIT));
    a.add(v(UNIT, UNIT, UNIT));
    let empty = AABB::default();
    let mut j = a;
    j.join(&empty);
    assert_eq!(j.min, a.min);
    assert_eq!(j.max, a.max);
}
