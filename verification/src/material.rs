//! The closed set of material variants and their scattering rules.
//!
//! Given an incoming ray and a hit record, a material either produces an
//! attenuation color and a scattered ray, or terminates the path; terminal
//! paths contribute the material's emission.  Every stochastic choice draws
//! from the explicit generator, and each variant's rule is mirrored by a
//! spec function over the draw sequence, so scattering is a pure function
//! of (material, ray, record, generator state).

use vstd::prelude::*;

use crate::fixed::{div_fx, div_fx_e, mul_fx, mul_fx_e, sat64, sqrt_fx, sqrt_fx_e, sub_fx, UNIT};
use crate::hittable::{RecV, Record};
use crate::ray::{Ray, RayV};
use crate::rng::{rng_next, rng_unit, unit_hemisphere_spec, random_unit_vec_spec, Rng};
use crate::vec3::{
    lemma_vlen2_nonneg, lemma_vlen_pos, vadd, vdot, vlen2, vneg, vreflect, vrefract, vscale,
    vunit, V3, Vec3,
};

verus! {

/// Fixed-point ratio used by metal: entering at 1/2.2.
pub const RATIO_ENTER: i64 = 29789;

/// Fixed-point ratio used by metal: exiting at 2.2.
pub const RATIO_EXIT: i64 = 144179;

#[derive(Clone, Copy, Debug, PartialEq, Eq, Structural)]
pub enum Material {
    Diffuse { color: Vec3 },
    Metal { color: Vec3, roughness: i64 },
    Dielectric { ior: i64 },
    Glossy { color: Vec3, specularity: i64, roughness: i64 },
    Emission { color: Vec3, strength: i64 },
    Empty,
}

/// Fifth power of a fixed-point value.
pub open spec fn pow5_fx(x: int) -> int {
    let x2 = mul_fx(x, x);
    let x4 = mul_fx(x2, x2);
    mul_fx(x4, x)
}

/// Schlick's reflectance approximation: `r0 + (1 - r0) * (1 - cos)^5`.
pub open spec fn schlick(r0: int, cos: int) -> int {
    sat64(r0 + mul_fx(sat64((UNIT as int) - r0), pow5_fx(sat64((UNIT as int) - cos))))
}

/// The base reflectance for a refractive ratio: `((1 - k) / (1 + k))^2`.
pub open spec fn r0_of(k: int) -> int
    recommends
        sat64((UNIT as int) + k) != 0,
{
    let a = div_fx(sat64((UNIT as int) - k), sat64((UNIT as int) + k));
    mul_fx(a, a)
}

/// Cosine between the reversed unit incoming direction and the unit normal,
/// capped at one.
pub open spec fn cos_in(r: RayV, n: V3) -> int {
    let c = vdot(vneg(vunit(r.direction)), vunit(n));
    if c <= UNIT as int {
        c
    } else {
        UNIT as int
    }
}

pub open spec fn whitev() -> V3 {
    V3 { x: UNIT as int, y: UNIT as int, z: UNIT as int }
}

/// The emitted radiance of a terminal material: color times strength for
/// emission, black otherwise.
pub open spec fn emit_spec(m: Material) -> V3 {
    match m {
        Material::Emission { color, strength } => vscale(color@, strength as int),
        _ => V3 { x: 0, y: 0, z: 0 },
    }
}

/// Diffuse: a hemisphere direction about the normal, plus the normal;
/// attenuation is the material color.
pub open spec fn diffuse_spec(color: V3, r: RayV, rec: RecV, s: u64) -> (Option<(V3, RayV)>, u64) {
    let (h, s1) = unit_hemisphere_spec(rec.normal, s);
    let dir = vadd(h, rec.normal);
    (Some((color, RayV { origin: rec.point, direction: dir })), s1)
}

/// Metal: mirror reflection fuzzed by roughness; attenuation blends the
/// base color toward white by a Schlick term.  A degenerate incoming
/// direction or normal terminates the path instead.
pub open spec fn metal_spec(color: V3, roughness: int, r: RayV, rec: RecV, s: u64) -> (
    Option<(V3, RayV)>,
    u64,
) {
    if vlen2(r.direction) == 0 || vlen2(rec.normal) == 0 {
        (None, s)
    } else {
        let k = if rec.outside_face {
            RATIO_ENTER as int
        } else {
            RATIO_EXIT as int
        };
        let rr = schlick(r0_of(k), cos_in(r, rec.normal));
        let (u, s1) = random_unit_vec_spec(s);
        let dir = vadd(vreflect(r.direction, rec.normal), vscale(u, roughness));
        let color_out = vadd(vscale(color, sat64((UNIT as int) - rr)), vscale(whitev(), rr));
        (Some((color_out, RayV { origin: rec.point, direction: dir })), s1)
    }
}

/// Dielectric: reflect on total internal reflection, otherwise choose
/// between reflection and refraction by comparing the Schlick reflectance
/// with one uniform draw; attenuation is white.
pub open spec fn dielectric_spec(ior: int, r: RayV, rec: RecV, s: u64) -> (
    Option<(V3, RayV)>,
    u64,
) {
    if vlen2(r.direction) == 0 || vlen2(rec.normal) == 0 {
        (None, s)
    } else if rec.outside_face && ior == 0 {
        (None, s)
    } else {
        let k = if rec.outside_face {
            div_fx(UNIT as int, ior)
        } else {
            ior
        };
        if sat64((UNIT as int) + k) == 0 {
            (None, s)
        } else {
            let cos = cos_in(r, rec.normal);
            let sin = sqrt_fx(sat64((UNIT as int) - mul_fx(cos, cos)));
            let refl = schlick(r0_of(k), cos);
            let color = vadd(
                vscale(whitev(), sat64((UNIT as int) - refl)),
                vscale(whitev(), refl),
            );
            if mul_fx(k, sin) > UNIT as int {
                let dir = vreflect(vunit(r.direction), rec.normal);
                (Some((color, RayV { origin: rec.point, direction: dir })), s)
            } else if refl > rng_unit(s) {
                let dir = vreflect(vunit(r.direction), rec.normal);
                (Some((color, RayV { origin: rec.point, direction: dir })), rng_next(s))
            } else {
                let dir = vrefract(vunit(r.direction), rec.normal, k);
                (Some((color, RayV { origin: rec.point, direction: dir })), rng_next(s))
            }
        }
    }
}

/// Glossy: choose the specular lobe with probability given by a Schlick
/// term seeded at the specularity, blend mirror and diffuse directions by
/// roughness, and blend color toward white accordingly.  Degenerate
/// directions terminate the path.
pub open spec fn glossy_spec(
    color: V3,
    specularity: int,
    roughness: int,
    r: RayV,
    rec: RecV,
    s: u64,
) -> (Option<(V3, RayV)>, u64) {
    if vlen2(r.direction) == 0 || vlen2(rec.normal) == 0 {
        (None, s)
    } else {
        let refl = schlick(specularity, cos_in(r, rec.normal));
        let is_specular = if refl >= rng_unit(s) {
            UNIT as int
        } else {
            0
        };
        let s1 = rng_next(s);
        let (h, s2) = unit_hemisphere_spec(rec.normal, s1);
        let diff_raw = vadd(h, rec.normal);
        let refl_raw = vreflect(r.direction, rec.normal);
        if vlen2(diff_raw) == 0 || vlen2(refl_raw) == 0 {
            (None, s2)
        } else {
            let k = mul_fx(is_specular, sat64((UNIT as int) - roughness));
            let mixed = vadd(
                vscale(vunit(refl_raw), k),
                vscale(vunit(diff_raw), sat64((UNIT as int) - k)),
            );
            if vlen2(mixed) == 0 {
                (None, s2)
            } else {
                let color_out = vadd(
                    vscale(color, sat64((UNIT as int) - is_specular)),
                    vscale(whitev(), is_specular),
                );
                (
                    Some(
                        (color_out, RayV { origin: rec.point, direction: vunit(mixed) }),
                    ),
                    s2,
                )
            }
        }
    }
}

/// The scattering rule of each variant, as a pure function of the draw
/// sequence; emission and empty materials terminate the path.
pub open spec fn scatter_spec(m: Material, r: RayV, rec: RecV, s: u64) -> (
    Option<(V3, RayV)>,
    u64,
) {
    match m {
        Material::Diffuse { color } => diffuse_spec(color@, r, rec, s),
        Material::Metal { color, roughness } => metal_spec(color@, roughness as int, r, rec, s),
        Material::Dielectric { ior } => dielectric_spec(ior as int, r, rec, s),
        Material::Glossy { color, specularity, roughness } => glossy_spec(
            color@,
            specularity as int,
            roughness as int,
            r,
            rec,
            s,
        ),
        Material::Emission { .. } => (None, s),
        Material::Empty => (None, s),
    }
}

/// View of an executable scatter result.
pub open spec fn scatter_view(o: Option<(Vec3, Ray)>) -> Option<(V3, RayV)> {
    match o {
        Some((c, ry)) => Some((c@, ry@)),
        None => None,
    }
}

/// Fifth power of a fixed-point value.
fn pow5_fx_e(x: i64) -> (r: i64)
    ensures
        r as int == pow5_fx(x as int),
{
    let x2: i64 = mul_fx_e(x, x);
    let x4: i64 = mul_fx_e(x2, x2);
    mul_fx_e(x4, x)
}

fn schlick_e(r0: i64, cos: i64) -> (r: i64)
    ensures
        r as int == schlick(r0 as int, cos as int),
{
    let p: i64 = pow5_fx_e(sub_fx(UNIT, cos));
    crate::fixed::add_fx(r0, mul_fx_e(sub_fx(UNIT, r0), p))
}

fn r0_of_e(k: i64) -> (r: i64)
    requires
        sat64((UNIT as int) + k) != 0,
    ensures
        r as int == r0_of(k as int),
{
    let a: i64 = div_fx_e(sub_fx(UNIT, k), crate::fixed::add_fx(UNIT, k));
    mul_fx_e(a, a)
}

/// Cosine helper; callers have checked both vectors are nonzero.
fn cos_in_e(r: &Ray, n: Vec3) -> (c: i64)
    requires
        vlen2(r@.direction) >= 1,
        vlen2(n@) >= 1,
    ensures
        c as int == cos_in(r@, n@),
{
    proof {
        lemma_vlen_pos(r@.direction);
        lemma_vlen_pos(n@);
    }
    let d: Vec3 = r.direction().unit().neg();
    let nn: Vec3 = n.unit();
    let c: i64 = Vec3::dot(d, nn);
    proof {
        assert(vneg(vunit(r@.direction)) == d@);
    }
    if c <= UNIT {
        c
    } else {
        UNIT
    }
}

impl Material {
    /// The terminal radiance of the material.
    pub fn emit(&self) -> (r: Vec3)
        ensures
            r@ == emit_spec(*self),
    {
        match self {
            Material::Emission { color, strength } => color.scale(*strength),
            _ => Vec3 { x: 0, y: 0, z: 0 },
        }
    }

    /// Scatter an incoming ray at a hit: either an attenuation color and an
    /// outgoing ray, or a terminal absorption/emission.
    pub fn scatter(&self, ray_in: &Ray, curr_record: &Record, rng: &mut Rng) -> (r: Option<
        (Vec3, Ray),
    >)
        ensures
            scatter_view(r) == scatter_spec(*self, ray_in@, curr_record@, old(rng).state).0,
            final(rng).state == scatter_spec(*self, ray_in@, curr_record@, old(rng).state).1,
    {
        match self {
            Material::Diffuse { color } => {
                let h: Vec3 = Vec3::vec_in_unit_hemisphere(curr_record.normal, rng);
                let dir: Vec3 = h.add(curr_record.normal);
                Some((*color, Ray::new(curr_record.point, dir)))
            },
            Material::Metal { color, roughness } => {
                proof {
                    lemma_vlen2_nonneg(ray_in@.direction);
                    lemma_vlen2_nonneg(curr_record@.normal);
                }
                if ray_in.direction().len2() == 0 || curr_record.normal.len2() == 0 {
                    return None;
                }
                let k: i64 = if curr_record.outside_face {
                    RATIO_ENTER
                } else {
                    RATIO_EXIT
                };
                let cos: i64 = cos_in_e(ray_in, curr_record.normal);
                let rr: i64 = schlick_e(r0_of_e(k), cos);
                let u: Vec3 = Vec3::random_unit_vec(rng);
                let dir: Vec3 = Vec3::reflect(ray_in.direction(), curr_record.normal).add(
                    u.scale(*roughness),
                );
                let color_out: Vec3 = color.scale(sub_fx(UNIT, rr)).add(Vec3::white().scale(rr));
                Some((color_out, Ray::new(curr_record.point, dir)))
            },
            Material::Dielectric { ior } => {
                proof {
                    lemma_vlen2_nonneg(ray_in@.direction);
                    lemma_vlen2_nonneg(curr_record@.normal);
                }
                if ray_in.direction().len2() == 0 || curr_record.normal.len2() == 0 {
                    return None;
                }
                if curr_record.outside_face && *ior == 0 {
                    return None;
                }
                let k: i64 = if curr_record.outside_face {
                    div_fx_e(UNIT, *ior)
                } else {
                    *ior
                };
                if crate::fixed::add_fx(UNIT, k) == 0 {
                    return None;
                }
                let cos: i64 = cos_in_e(ray_in, curr_record.normal);
                let sin: i64 = sqrt_fx_e(sub_fx(UNIT, mul_fx_e(cos, cos)));
                let refl: i64 = schlick_e(r0_of_e(k), cos);
                let color: Vec3 = Vec3::white().scale(sub_fx(UNIT, refl)).add(
                    Vec3::white().scale(refl),
                );
                proof {
                    lemma_vlen_pos(ray_in@.direction);
                }
                if mul_fx_e(k, sin) > UNIT {
                    let dir: Vec3 = Vec3::reflect(ray_in.direction().unit(), curr_record.normal);
                    Some((color, Ray::new(curr_record.point, dir)))
                } else {
                    let g: i64 = rng.gen_random();
                    if refl > g {
                        let dir: Vec3 = Vec3::reflect(
                            ray_in.direction().unit(),
                            curr_record.normal,
                        );
                        Some((color, Ray::new(curr_record.point, dir)))
                    } else {
                        let dir: Vec3 = Vec3::refract(
                            ray_in.direction().unit(),
                            curr_record.normal,
                            k,
                        );
                        Some((color, Ray::new(curr_record.point, dir)))
                    }
                }
            },
            Material::Glossy { color, specularity, roughness } => {
                proof {
                    lemma_vlen2_nonneg(ray_in@.direction);
                    lemma_vlen2_nonneg(curr_record@.normal);
                }
                if ray_in.direction().len2() == 0 || curr_record.normal.len2() == 0 {
                    return None;
                }
                let cos: i64 = cos_in_e(ray_in, curr_record.normal);
                let refl: i64 = schlick_e(*specularity, cos);
                let g: i64 = rng.gen_random();
                let is_specular: i64 = if refl >= g {
                    UNIT
                } else {
                    0
                };
                let h: Vec3 = Vec3::vec_in_unit_hemisphere(curr_record.normal, rng);
                let diff_raw: Vec3 = h.add(curr_record.normal);
                let refl_raw: Vec3 = Vec3::reflect(ray_in.direction(), curr_record.normal);
                proof {
                    lemma_vlen2_nonneg(diff_raw@);
                    lemma_vlen2_nonneg(refl_raw@);
                }
                if diff_raw.len2() == 0 || refl_raw.len2() == 0 {
                    return None;
                }
                proof {
                    lemma_vlen_pos(diff_raw@);
                    lemma_vlen_pos(refl_raw@);
                }
                let k: i64 = mul_fx_e(is_specular, sub_fx(UNIT, *roughness));
                let mixed: Vec3 = refl_raw.unit().scale(k).add(
                    diff_raw.unit().scale(sub_fx(UNIT, k)),
                );
                proof {
                    lemma_vlen2_nonneg(mixed@);
                }
                if mixed.len2() == 0 {
                    return None;
                }
                proof {
                    lemma_vlen_pos(mixed@);
                }
                let color_out: Vec3 = color.scale(sub_fx(UNIT, is_specular)).add(
                    Vec3::white().scale(is_specular),
                );
                Some((color_out, Ray::new(curr_record.point, mixed.unit())))
            },
            Material::Emission { .. } => None,
            Material::Empty => None,
        }
    }
}

} // verus!
