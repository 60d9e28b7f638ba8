//! The camera and the path-tracing integrator.
//!
//! The camera derives an orthonormal basis and a pixel-to-ray mapping from
//! its configuration; the integrator recursively traces rays through the
//! accelerated scene, scattering at hits, with a hard depth cutoff.  All
//! of it is pinned to spec functions of (camera, scene, seed), so a render
//! is reproducible by construction: the same seed gives the same pixels.
//!
//! The tangent of half the vertical field of view is taken as a
//! fixed-point input (`tan_half_fov`): trigonometric evaluation is the
//! configuration layer's concern.

use vstd::prelude::*;

use crate::bvh::{perm_of, wf_node, BVHNode};
use crate::fixed::{div_fx, mul_fx, sat64, sat_i64, sub_fx, UNIT};
use crate::hittable::{first_of, hv_hit_spec, scan_prims, HittableVec};
use crate::image::Image;
use crate::material::{emit_spec, scatter_spec};
use crate::primitive::Primitive;
use crate::ray::{Ray, RayV};
use crate::rng::{rng_next, rng_unit, Rng, HALF_UNIT};
use crate::vec3::{
    lemma_vlen2_nonneg, lemma_vlen_pos, vadd, vcross, vdiv, vlen, vlen2, vmul, vscale, vsub, vunit,
    V3, Vec3,
};

verus! {

/// The lower ray-parameter bound of every scene query, about 0.001 in
/// fixed point: rays never re-hit their own origin ("shadow acne").
pub const T_EPS: i64 = 65;

/// The upper ray-parameter bound standing in for infinity.
pub const T_INF: i64 = i64::MAX;

/// Fixed-point tangent of half the default 60-degree field of view.
pub const DEFAULT_TAN_HALF_FOV: i64 = 37837;

pub struct Camera {
    pub image_width: u32,
    pub image_height: u32,
    pub camera_center: Vec3,
    pub upper_left_pixel: Vec3,
    pub del_h: Vec3,
    pub del_w: Vec3,
    pub samples: u32,
    pub ray_depth: u32,
    pub tan_half_fov: i64,
    pub look_at: Vec3,
    pub look_from: Vec3,
    pub v_up: Vec3,
    pub output: Image,
}

/// The derived viewport state: camera center, upper-left pixel center,
/// and the per-pixel steps.
pub ghost struct CamV {
    pub center: V3,
    pub upper_left: V3,
    pub del_h: V3,
    pub del_w: V3,
}

pub open spec fn cam_of(c: Camera) -> CamV {
    CamV {
        center: c.camera_center@,
        upper_left: c.upper_left_pixel@,
        del_h: c.del_h@,
        del_w: c.del_w@,
    }
}

/// A configuration the basis derivation is defined for: nondegenerate gaze
/// direction, an up vector not parallel to it, and positive dimensions.
pub open spec fn camera_ok(c: Camera) -> bool {
    let gaze = vsub(c.look_from@, c.look_at@);
    &&& c.image_width >= 1
    &&& c.image_height >= 1
    &&& c.samples >= 1
    &&& vlen2(gaze) >= 1
    &&& vlen2(vcross(c.v_up@, vunit(gaze))) >= 1
    &&& vlen2(vcross(vunit(gaze), vunit(vcross(c.v_up@, vunit(gaze))))) >= 1
    &&& div_fx(
        sat64(c.image_width as int * (UNIT as int)),
        sat64(c.image_height as int * (UNIT as int)),
    ) >= 1
}

/// The viewport derivation: orthonormal basis from gaze and up, viewport
/// extent from the field of view and aspect ratio, pixel steps from the
/// image dimensions.
pub open spec fn init_spec(c: Camera) -> CamV {
    let gaze = vsub(c.look_from@, c.look_at@);
    let focal = vlen(gaze);
    let z = vunit(gaze);
    let x = vunit(vcross(c.v_up@, z));
    let y = vunit(vcross(z, x));
    let vw = mul_fx(sat64(2 * focal), c.tan_half_fov as int);
    let wfx = sat64(c.image_width as int * (UNIT as int));
    let hfx = sat64(c.image_height as int * (UNIT as int));
    let ratio = div_fx(wfx, hfx);
    let vh = div_fx(vw, ratio);
    let v_w = vscale(x, vw);
    let v_h = vscale(y, sat64(-vh));
    let center = c.look_from@;
    let del_w = vdiv(v_w, wfx);
    let del_h = vdiv(v_h, hfx);
    let cul = vsub(
        vsub(vsub(center, vscale(z, focal)), vdiv(v_w, 2 * (UNIT as int))),
        vdiv(v_h, 2 * (UNIT as int)),
    );
    let upper_left = vadd(
        vadd(cul, vdiv(del_w, 2 * (UNIT as int))),
        vdiv(del_h, 2 * (UNIT as int)),
    );
    CamV { center, upper_left, del_h, del_w }
}

/// The jittered ray of pixel row `i`, column `j`: the pixel center plus a
/// uniform sub-pixel offset from two draws.
pub open spec fn sample_ray_spec(cam: CamV, i: int, j: int, s: u64) -> (RayV, u64) {
    let pixel_vec = vadd(
        vadd(cam.upper_left, vscale(cam.del_h, sat64(i * (UNIT as int)))),
        vscale(cam.del_w, sat64(j * (UNIT as int))),
    );
    let g1 = rng_unit(s);
    let s1 = rng_next(s);
    let g2 = rng_unit(s1);
    let s2 = rng_next(s1);
    let pixel_sample = vadd(
        vadd(pixel_vec, vscale(cam.del_h, sat64(g1 - (HALF_UNIT as int)))),
        vscale(cam.del_w, sat64(g2 - (HALF_UNIT as int))),
    );
    (RayV { origin: cam.center, direction: vsub(pixel_sample, cam.center) }, s2)
}

/// The escape color: a vertical white-to-sky-blue gradient over the unit
/// direction's height; black for a degenerate direction.
pub open spec fn sky_spec(r: RayV) -> V3 {
    if vlen2(r.direction) == 0 {
        V3 { x: 0, y: 0, z: 0 }
    } else {
        let u = vunit(r.direction);
        let a = mul_fx(sat64(u.y + (UNIT as int)), HALF_UNIT as int);
        vadd(
            vscale(V3 { x: UNIT as int, y: UNIT as int, z: UNIT as int }, sat64((UNIT as int) - a)),
            vscale(V3 { x: HALF_UNIT as int, y: 45875, z: UNIT as int }, a),
        )
    }
}

/// One path through the accelerated scene: black at depth zero, emission
/// at terminal hits, attenuated recursion at scattering hits, the sky
/// gradient on escape.
pub open spec fn trace_spec(prims: Seq<Primitive>, r: RayV, depth: u32, s: u64) -> (V3, u64)
    decreases depth,
{
    if depth == 0 {
        (V3 { x: 0, y: 0, z: 0 }, s)
    } else {
        match first_of(scan_prims(prims, r, T_EPS as int, T_INF as int, prims.len() as int)) {
            Some(x) => {
                let (sc, s1) = scatter_spec(x.material, r, x, s);
                match sc {
                    Some(pair) => {
                        let (rest, s2) = trace_spec(
                            prims,
                            pair.1,
                            (depth - 1) as u32,
                            s1,
                        );
                        (vmul(pair.0, rest), s2)
                    },
                    None => (emit_spec(x.material), s1),
                }
            },
            None => (sky_spec(r), s),
        }
    }
}

/// With the recursion budget spent, a trace is black whatever the scene
/// holds and wherever the ray points.
pub proof fn lemma_trace_depth_zero(prims: Seq<Primitive>, r: RayV, s: u64)
    ensures
        trace_spec(prims, r, 0, s) == ((V3 { x: 0, y: 0, z: 0 }, s)),
{
}

/// The same, tracing through the whole-scene list.
pub proof fn lemma_trace_list_depth_zero(world: HittableVec, r: RayV, s: u64)
    ensures
        trace_list_spec(world, r, 0, s) == ((V3 { x: 0, y: 0, z: 0 }, s)),
{
}

/// The same path, intersecting through the unaccelerated whole-scene list.
pub open spec fn trace_list_spec(world: HittableVec, r: RayV, depth: u32, s: u64) -> (V3, u64)
    decreases depth,
{
    if depth == 0 {
        (V3 { x: 0, y: 0, z: 0 }, s)
    } else {
        match hv_hit_spec(world, r, T_EPS as int, T_INF as int) {
            Some(x) => {
                let (sc, s1) = scatter_spec(x.material, r, x, s);
                match sc {
                    Some(pair) => {
                        let (rest, s2) = trace_list_spec(world, pair.1, (depth - 1) as u32, s1);
                        (vmul(pair.0, rest), s2)
                    },
                    None => (emit_spec(x.material), s1),
                }
            },
            None => (sky_spec(r), s),
        }
    }
}

/// The accumulated color of the first `k` samples of pixel (y, x).
pub open spec fn sample_fold(
    prims: Seq<Primitive>,
    cam: CamV,
    depth: u32,
    y: int,
    x: int,
    k: int,
    s: u64,
) -> (V3, u64)
    decreases k,
{
    if k <= 0 {
        (V3 { x: 0, y: 0, z: 0 }, s)
    } else {
        let (prev, s1) = sample_fold(prims, cam, depth, y, x, k - 1, s);
        let (ray, s2) = sample_ray_spec(cam, y, x, s1);
        let (c, s3) = trace_spec(prims, ray, depth, s2);
        (vadd(prev, c), s3)
    }
}

/// The first `n` pixels of row `y`, the generator threaded across them.
pub open spec fn row_fold(
    prims: Seq<Primitive>,
    cam: CamV,
    depth: u32,
    samples: int,
    y: int,
    n: int,
    s: u64,
) -> (Seq<V3>, u64)
    decreases n,
{
    if n <= 0 {
        (Seq::empty(), s)
    } else {
        let (pre, s1) = row_fold(prims, cam, depth, samples, y, n - 1, s);
        let (pix, s2) = sample_fold(prims, cam, depth, y, n - 1, samples, s1);
        (pre.push(pix), s2)
    }
}

/// The seed of a row's generator: derived from the render seed and the
/// row index alone, so rows are independent and may run in parallel.
pub open spec fn row_seed(seed: u64, y: u32) -> u64 {
    rng_next(rng_next(seed ^ (y as u64)))
}

/// A row holds one entry per pixel column.
pub proof fn lemma_row_fold_len(
    prims: Seq<Primitive>,
    cam: CamV,
    depth: u32,
    samples: int,
    y: int,
    n: int,
    s: u64,
)
    requires
        n >= 0,
    ensures
        row_fold(prims, cam, depth, samples, y, n, s).0.len() == n,
    decreases n,
{
    if n > 0 {
        lemma_row_fold_len(prims, cam, depth, samples, y, n - 1, s);
    }
}

/// The whole image: the rows concatenated, each from its own seed.
pub open spec fn render_spec(
    c: Camera,
    prims: Seq<Primitive>,
    seed: u64,
    rows: int,
) -> Seq<V3>
    decreases rows,
{
    if rows <= 0 {
        Seq::empty()
    } else {
        render_spec(c, prims, seed, rows - 1) + row_fold(
            prims,
            init_spec(c),
            c.ray_depth,
            c.samples as int,
            rows - 1,
            c.image_width as int,
            row_seed(seed, (rows - 1) as u32),
        ).0
    }
}

impl Camera {
    /// A small default configuration.
    pub fn new() -> (c: Camera)
        ensures
            c.image_width == 4,
            c.image_height == 4,
            c.samples == 1,
            c.ray_depth == 10,
            c.tan_half_fov == DEFAULT_TAN_HALF_FOV,
            c.look_at@ == (V3 { x: 0, y: 0, z: -(UNIT as int) }),
            c.look_from@ == (V3 { x: 0, y: 0, z: 0 }),
            c.v_up@ == (V3 { x: 0, y: UNIT as int, z: 0 }),
    {
        Camera {
            image_width: 4,
            image_height: 4,
            camera_center: Vec3::default(),
            upper_left_pixel: Vec3::default(),
            del_h: Vec3::default(),
            del_w: Vec3::default(),
            samples: 1,
            ray_depth: 10,
            tan_half_fov: DEFAULT_TAN_HALF_FOV,
            look_at: Vec3 { x: 0, y: 0, z: -UNIT },
            look_from: Vec3::default(),
            v_up: Vec3 { x: 0, y: UNIT, z: 0 },
            output: Image::new(4, 4, Vec::new()),
        }
    }

    /// Derive the viewport from the configuration.
    pub fn init(&mut self)
        requires
            camera_ok(*old(self)),
        ensures
            cam_of(*final(self)) == init_spec(*old(self)),
            final(self).image_width == old(self).image_width,
            final(self).image_height == old(self).image_height,
            final(self).samples == old(self).samples,
            final(self).ray_depth == old(self).ray_depth,
            final(self).output == old(self).output,
    {
        let gaze: Vec3 = self.look_from.sub(self.look_at);
        proof {
            lemma_vlen_pos(gaze@);
        }
        let focal_length: i64 = gaze.length();
        let z: Vec3 = gaze.unit();
        let xc: Vec3 = Vec3::cross(self.v_up, z);
        proof {
            lemma_vlen_pos(xc@);
        }
        let x: Vec3 = xc.unit();
        let yc: Vec3 = Vec3::cross(z, x);
        proof {
            lemma_vlen_pos(yc@);
        }
        let y: Vec3 = yc.unit();
        let vw: i64 = crate::fixed::mul_fx_e(sat_i64(2 * (focal_length as i128)), self.tan_half_fov);
        proof {
            crate::fixed::lemma_mul_bound(
                self.image_width as int,
                UNIT as int,
                0x1_0000_0000,
                0x1_0000,
            );
            crate::fixed::lemma_mul_bound(
                self.image_height as int,
                UNIT as int,
                0x1_0000_0000,
                0x1_0000,
            );
            assert(self.image_width as int * (UNIT as int) >= UNIT as int) by (nonlinear_arith)
                requires
                    self.image_width >= 1,
            {
            }
            assert(self.image_height as int * (UNIT as int) >= UNIT as int) by (nonlinear_arith)
                requires
                    self.image_height >= 1,
            {
            }
        }
        let wfx: i64 = sat_i64((self.image_width as i128) * (UNIT as i128));
        let hfx: i64 = sat_i64((self.image_height as i128) * (UNIT as i128));
        let ratio: i64 = crate::fixed::div_fx_e(wfx, hfx);
        let vh: i64 = crate::fixed::div_fx_e(vw, ratio);
        let v_w: Vec3 = x.scale(vw);
        let v_h: Vec3 = y.scale(crate::fixed::neg_fx(vh));
        self.camera_center = self.look_from;
        self.del_w = v_w.div(wfx);
        self.del_h = v_h.div(hfx);
        let two: i64 = 2 * UNIT;
        let camera_upper_left: Vec3 = self.camera_center.sub(z.scale(focal_length)).sub(
            v_w.div(two),
        ).sub(v_h.div(two));
        self.upper_left_pixel = camera_upper_left.add(self.del_w.div(two)).add(self.del_h.div(two));
    }

    /// The jittered ray of one pixel sample.
    fn get_sample_ray(&self, i: u32, j: u32, rng: &mut Rng) -> (r: Ray)
        ensures
            r@ == sample_ray_spec(cam_of(*self), i as int, j as int, old(rng).state).0,
            final(rng).state == sample_ray_spec(cam_of(*self), i as int, j as int, old(rng).state).1,
    {
        proof {
            crate::fixed::lemma_mul_bound(i as int, UNIT as int, 0x1_0000_0000, 0x1_0000);
            crate::fixed::lemma_mul_bound(j as int, UNIT as int, 0x1_0000_0000, 0x1_0000);
        }
        let i_fx: i64 = sat_i64((i as i128) * (UNIT as i128));
        let j_fx: i64 = sat_i64((j as i128) * (UNIT as i128));
        let pixel_vec: Vec3 = self.upper_left_pixel.add(self.del_h.scale(i_fx)).add(
            self.del_w.scale(j_fx),
        );
        let g1: i64 = rng.gen_random();
        let g2: i64 = rng.gen_random();
        let pixel_sample: Vec3 = pixel_vec.add(self.del_h.scale(sub_fx(g1, HALF_UNIT))).add(
            self.del_w.scale(sub_fx(g2, HALF_UNIT)),
        );
        Ray::new(self.camera_center, pixel_sample.sub(self.camera_center))
    }

    /// The escape color of a ray that leaves the scene.
    fn sky(r: &Ray) -> (c: Vec3)
        ensures
            c@ == sky_spec(r@),
    {
        proof {
            lemma_vlen2_nonneg(r@.direction);
        }
        if r.direction.len2() == 0 {
            return Vec3::black();
        }
        proof {
            lemma_vlen_pos(r@.direction);
        }
        let unit: Vec3 = r.direction().unit();
        let a: i64 = crate::fixed::mul_fx_e(crate::fixed::add_fx(unit.y, UNIT), HALF_UNIT);
        Vec3::white().scale(sub_fx(UNIT, a)).add(
            Vec3 { x: HALF_UNIT, y: 45875, z: UNIT }.scale(a),
        )
    }

    /// Trace through the unaccelerated whole-scene list; black once the recursion
    /// budget is spent, whatever the scene holds.
    pub fn ray_color(&self, r: &Ray, world: &HittableVec, curr_depth: u32, rng: &mut Rng) -> (c:
        Vec3)
        requires
            world.wf(),
        ensures
            c@ == trace_list_spec(*world, r@, curr_depth, old(rng).state).0,
            final(rng).state == trace_list_spec(*world, r@, curr_depth, old(rng).state).1,
        decreases curr_depth,
    {
        if curr_depth == 0 {
            return Vec3::black();
        }
        let res: Option<crate::hittable::Record> = world.ray_hit(r, T_EPS, T_INF);
        match res {
            Some(x) => {
                let sc: Option<(Vec3, Ray)> = x.material.scatter(r, &x, rng);
                match sc {
                    Some((color, scattered_ray)) => {
                        let rest: Vec3 = self.ray_color(&scattered_ray, world, curr_depth - 1, rng);
                        color.mul(rest)
                    },
                    None => x.material.emit(),
                }
            },
            None => Camera::sky(r),
        }
    }

    /// Trace through the accelerated scene: the integrator of the hot
    /// path.  Equal, hit for hit, to tracing by full scan.
    pub fn ray_color2(
        &self,
        r: &Ray,
        bvh: &BVHNode,
        primitives: &Vec<Primitive>,
        indices: &Vec<usize>,
        curr_depth: u32,
        rng: &mut Rng,
    ) -> (c: Vec3)
        requires
            wf_node(*bvh, primitives@, indices@),
            bvh.start == 0,
            bvh.end == indices@.len(),
            perm_of(indices@, primitives@.len() as int),
        ensures
            c@ == trace_spec(primitives@, r@, curr_depth, old(rng).state).0,
            final(rng).state == trace_spec(primitives@, r@, curr_depth, old(rng).state).1,
        decreases curr_depth,
    {
        if curr_depth == 0 {
            return Vec3::black();
        }
        let res: Option<crate::hittable::Record> = bvh.ray_hit(primitives, indices, r, T_EPS, T_INF);
        match res {
            Some(x) => {
                let sc: Option<(Vec3, Ray)> = x.material.scatter(r, &x, rng);
                match sc {
                    Some((color, scattered_ray)) => {
                        let rest: Vec3 = self.ray_color2(
                            &scattered_ray,
                            bvh,
                            primitives,
                            indices,
                            curr_depth - 1,
                            rng,
                        );
                        color.mul(rest)
                    },
                    None => x.material.emit(),
                }
            },
            None => Camera::sky(r),
        }
    }

    /// Render one row of the image from its own seed: the unit of work of
    /// the row-parallel driver.
    #[verifier::loop_isolation(false)]
    pub fn render_row(
        &self,
        bvh: &BVHNode,
        primitives: &Vec<Primitive>,
        indices: &Vec<usize>,
        y: u32,
        seed: u64,
    ) -> (row: Vec<Vec3>)
        requires
            wf_node(*bvh, primitives@, indices@),
            bvh.start == 0,
            bvh.end == indices@.len(),
            perm_of(indices@, primitives@.len() as int),
        ensures
            row@.len() == self.image_width,
            forall|x: int|
                0 <= x < self.image_width ==> row@[x]@ == row_fold(
                    primitives@,
                    cam_of(*self),
                    self.ray_depth,
                    self.samples as int,
                    y as int,
                    self.image_width as int,
                    row_seed(seed, y),
                ).0[x],
    {
        let mut rng: Rng = Rng { state: rng_next_e(rng_next_e(seed ^ (y as u64))) };
        let mut row: Vec<Vec3> = Vec::new();
        let mut x: u32 = 0;
        while x < self.image_width
            invariant
                0 <= x <= self.image_width,
                row@.len() == x,
                (forall|x2: int|
                    0 <= x2 < x ==> row@[x2]@ == row_fold(
                        primitives@,
                        cam_of(*self),
                        self.ray_depth,
                        self.samples as int,
                        y as int,
                        x as int,
                        row_seed(seed, y),
                    ).0[x2]),
                rng.state == row_fold(
                    primitives@,
                    cam_of(*self),
                    self.ray_depth,
                    self.samples as int,
                    y as int,
                    x as int,
                    row_seed(seed, y),
                ).1,
            decreases self.image_width - x,
        {
            let ghost sx: u64 = rng.state;
            let mut acc: Vec3 = Vec3::black();
            let mut k: u32 = 0;
            while k < self.samples
                invariant
                    0 <= k <= self.samples,
                    (acc@, rng.state) == sample_fold(
                        primitives@,
                        cam_of(*self),
                        self.ray_depth,
                        y as int,
                        x as int,
                        k as int,
                        sx,
                    ),
                decreases self.samples - k,
            {
                let ray: Ray = self.get_sample_ray(y, x, &mut rng);
                let c: Vec3 = self.ray_color2(
                    &ray,
                    bvh,
                    primitives,
                    indices,
                    self.ray_depth,
                    &mut rng,
                );
                acc = acc.add(c);
                k = k + 1;
            }
            row.push(acc);
            x = x + 1;
            proof {
                lemma_row_fold_len(
                    primitives@,
                    cam_of(*self),
                    self.ray_depth,
                    self.samples as int,
                    y as int,
                    x - 1,
                    row_seed(seed, y),
                );
                let full = row_fold(
                    primitives@,
                    cam_of(*self),
                    self.ray_depth,
                    self.samples as int,
                    y as int,
                    x as int,
                    row_seed(seed, y),
                );
                assert(full.0.last() == acc@);
            }
        }
        row
    }

    /// Render the whole image, row by row: the pixel buffer is a pure
    /// function of the camera configuration, the scene and the seed, so
    /// re-rendering with the same seed reproduces it exactly.
    #[verifier::loop_isolation(false)]
    #[verifier::rlimit(100)]
    pub fn render(
        &mut self,
        bvh: &BVHNode,
        primitives: &Vec<Primitive>,
        indices: &Vec<usize>,
        seed: u64,
    )
        requires
            camera_ok(*old(self)),
            wf_node(*bvh, primitives@, indices@),
            bvh.start == 0,
            bvh.end == indices@.len(),
            perm_of(indices@, primitives@.len() as int),
        ensures
            final(self).output.width == old(self).image_width,
            final(self).output.height == old(self).image_height,
            final(self).output.pixels@.len() == render_spec(
                *old(self),
                primitives@,
                seed,
                old(self).image_height as int,
            ).len(),
            forall|p: int|
                0 <= p < final(self).output.pixels@.len() ==> final(self).output.pixels@[p]@
                    == render_spec(*old(self), primitives@, seed, old(self).image_height as int)[p],
    {
        self.init();
        let mut pixels: Vec<Vec3> = Vec::new();
        let mut y: u32 = 0;
        while y < self.image_height
            invariant
                0 <= y <= self.image_height,
                pixels@.len() == render_spec(*old(self), primitives@, seed, y as int).len(),
                (forall|p: int|
                    0 <= p < pixels@.len() ==> pixels@[p]@ == render_spec(
                        *old(self),
                        primitives@,
                        seed,
                        y as int,
                    )[p]),
            decreases self.image_height - y,
        {
            let mut row: Vec<Vec3> = self.render_row(bvh, primitives, indices, y, seed);
            proof {
                assert(cam_of(*self) == init_spec(*old(self)));
                let rf = row_fold(
                    primitives@,
                    init_spec(*old(self)),
                    old(self).ray_depth,
                    old(self).samples as int,
                    y as int,
                    old(self).image_width as int,
                    row_seed(seed, y),
                );
                lemma_row_fold_len(
                    primitives@,
                    init_spec(*old(self)),
                    old(self).ray_depth,
                    old(self).samples as int,
                    y as int,
                    old(self).image_width as int,
                    row_seed(seed, y),
                );
                assert(render_spec(*old(self), primitives@, seed, y + 1) == render_spec(
                    *old(self),
                    primitives@,
                    seed,
                    y as int,
                ) + rf.0);
                assert(row@.len() == rf.0.len());
                assert forall|x: int| 0 <= x < row@.len() implies row@[x]@ == rf.0[x] by {
                }
            }
            pixels.append(&mut row);
            y = y + 1;
        }
        self.output = Image::new(self.image_width, self.image_height, pixels);
    }
}

/// One executable generator step, for seeding row generators.
fn rng_next_e(s: u64) -> (r: u64)
    ensures
        r == rng_next(s),
{
    let a: u64 = s ^ (s << 13);
    let b: u64 = a ^ (a >> 7);
    b ^ (b << 17)
}

} // verus!
