use pathtracer::bvh::BVHNode;
use pathtracer::fixed::UNIT;
use pathtracer::hittable::HittableVec;
use pathtracer::material::Material;
use pathtracer::primitive::Primitive;
use pathtracer::ray::Ray;
use pathtracer::sphere::Sphere;
use pathtracer::triangle::Triangle;
use pathtracer::vec3::Vec3;

fn v(x: i64, y: i64, z: i64) -> Vec3 {
    Vec3 { x, y, z }
}

fn sample_scene() -> Vec<Primitive> {
    let mut prims: Vec<Primitive> = Vec::new();
    for i in 0..5i64 {
        prims.push(Primitive::Sphere(Sphere::new(
            v(4 * i * UNIT, 0, 0),
            UNIT,
            Material::Diffuse { color: v(UNIT, 0, 0) },
        )));
    }
    prims.push(Primitive::Triangle(Triangle::new(
        v(-3 * UNIT, -UNIT, -UNIT),
        v(-3 * UNIT, UNIT, -UNIT),
        v(-3 * UNIT, 0, UNIT),
        Material::Empty,
    )));
    prims
}

fn build(prims: &Vec<Primitive>) -> (BVHNode, Vec<usize>) {
    let mut indices: Vec<usize> = (0..prims.len()).collect();
    let bvh = BVHNode::new(prims, &mut indices, 0, prims.len(), 16);
    (bvh, indices)
}

fn collect_leaves(n: &BVHNode, out: &mut Vec<(usize, usize)>) {
    match (&n.left, &n.right) {
        (Some(l), Some(r)) => {
            collect_leaves(l, out);
            collect_leaves(r, out);
        }
        _ => out.push((n.start, n.end)),
    }
}

#[test]
fn bvh_agrees_with_full_scan() {
    let prims = sample_scene();
    let (bvh, indices) = build(&prims);
    let mut world = HittableVec::new();
    for p in &prims {
        world.add(*p);
    }
    let rays = vec![
        Ray::new(v(0, 0, 5 * UNIT), v(0, 0, -UNIT)),
        Ray::new(v(8 * UNIT, 0, 5 * UNIT), v(0, 0, -UNIT)),
        Ray::new(v(-20 * UNIT, 0, 0), v(UNIT, 0, 0)),
        Ray::new(v(0, 9 * UNIT, 0), v(0, -UNIT, 0)),
        Ray::new(v(0, 9 * UNIT, 9 * UNIT), v(0, UNIT, UNIT)),
        Ray::new(v(-3 * UNIT, 0, 9 * UNIT), v(0, 0, -UNIT)),
    ];
    for ray in &rays {
        let fast = bvh.ray_hit(&prims, &indices, ray, 0, i64::MAX);
        let slow = world.ray_hit(ray, 0, i64::MAX);
        match (fast, slow) {
            (None, None) => {}
            (Some(a), Some(b)) => {
                assert_eq!(a.t, b.t);
                assert_eq!(a.point, b.point);
                assert_eq!(a.normal, b.normal);
                assert_eq!(a.material, b.material);
            }
            _ => panic!("accelerated and scanned results disagree"),
        }
    }
}

#[test]
fn bvh_tie_between_coincident_primitives_matches_scan() {
    let mut prims: Vec<Primitive> = Vec::new();
    prims.push(Primitive::Sphere(Sphere::new(
        v(0, 0, 0),
        UNIT,
        Material::Diffuse { color: v(UNIT, 0, 0) },
    )));
    prims.push(Primitive::Sphere(Sphere::new(
        v(0, 0, 0),
        UNIT,
        Material::Diffuse { color: v(0, UNIT, 0) },
    )));
    prims.push(Primitive::Sphere(Sphere::new(
        v(10 * UNIT, 0, 0),
        UNIT,
        Material::Empty,
    )));
    let (bvh, indices) = build(&prims);
    let mut world = HittableVec::new();
    for p in &prims {
        world.add(*p);
    }
    let ray = Ray::new(v(0, 0, 5 * UNIT), v(0, 0, -UNIT));
    let fast = bvh.ray_hit(&prims, &indices, &ray, 0, i64::MAX).unwrap();
    let slow = world.ray_hit(&ray, 0, i64::MAX).unwrap();
    assert_eq!(fast.t, slow.t);
    assert_eq!(fast.material, slow.material);
    // the first primitive in scene order wins the exact tie
    assert_eq!(fast.material, Material::Diffuse { color: v(UNIT, 0, 0) });
}

#[test]
fn bvh_leaf_ranges_partition_the_index_array() {
    let prims = sample_scene();
    let (bvh, indices) = build(&prims);
    assert_eq!(bvh.start, 0);
    assert_eq!(bvh.end, prims.len());
    let mut leaves: Vec<(usize, usize)> = Vec::new();
    collect_leaves(&bvh, &mut leaves);
    let mut covered = vec![0usize; prims.len()];
    for (s, e) in &leaves {
        assert!(s < e && *e <= prims.len());
        for p in *s..*e {
            covered[p] += 1;
        }
    }
    assert!(covered.iter().all(|c| *c == 1));
    // the index array is still a permutation, so every primitive sits in
    // exactly one leaf
    let mut sorted = indices.clone();
    sorted.sort();
    let expect: Vec<usize> = (0..prims.len()).collect();
    assert_eq!(sorted, expect);
}

#[test]
fn bvh_depth_cap_still_finds_hits() {
    let prims = sample_scene();
    let mut indices: Vec<usize> = (0..prims.len()).collect();
    let bvh = BVHNode::new(&prims, &mut indices, 0, prims.len(), 0);
    let ray = Ray::new(v(8 * UNIT, 0, 5 * UNIT), v(0, 0, -UNIT));
    let rec = bvh.ray_hit(&prims, &indices, &ray, 0, i64::MAX).unwrap();
    assert_eq!(rec.t, 4 * UNIT);
}

#[test]
fn trimesh_scans_its_triangles() {
    let t1 = Triangle::new(v(0, 0, 0), v(UNIT, 0, 0), v(0, UNIT, 0), Material::Empty);
    let t2 = Triangle::new(
        v(0, 0, -2 * UNIT),
        v(UNIT, 0, -2 * UNIT),
        v(0, UNIT, -2 * UNIT),
        Material::Empty,
    );
    let mesh = pathtracer::trimesh::TriMesh::new(vec![t1, t2]);
    let ray = Ray::new(v(UNIT / 4, UNIT / 4, 5 * UNIT), v(0, 0, -UNIT));
    let rec = mesh.ray_hit(&ray, 0, i64::MAX).unwrap();
    // the nearer of the two parallel triangles wins
    assert_eq!(rec.t, 5 * UNIT);
    let behind = Ray::new(v(UNIT / 4, UNIT / 4, 5 * UNIT), v(0, 0, -UNIT));
    let rec2 = mesh.ray_hit(&behind, 6 * UNIT, i64::MAX).unwrap();
    assert_eq!(rec2.t, 7 * UNIT);
    let b = mesh.bounds();
    assert_eq!(b.min, v(0, 0, -2 * UNIT));
    assert_eq!(b.max, v(UNIT, UNIT, 0));
}

#[test]
fn scan_includes_planes_bvh_does_not() {
    let prims = sample_scene();
    let (bvh, indices) = build(&prims);
    let mut world = HittableVec::new();
    for p in &prims {
        world.add(*p);
    }
    world.add_plane(pathtracer::plane::Plane::new(
        v(0, -5 * UNIT, 0),
        v(0, UNIT, 0),
        Material::Empty,
    ));
    let down = Ray::new(v(50 * UNIT, 0, 0), v(0, -UNIT, 0));
    assert!(bvh.ray_hit(&prims, &indices, &down, 0, i64::MAX).is_none());
    let rec = world.ray_hit(&down, 0, i64::MAX).unwrap();
    assert_eq!(rec.t, 5 * UNIT);
}
