//! The explicit pseudo-random generator that drives all Monte-Carlo
//! sampling, and the random-direction helpers built on it.
//!
//! The generator is a 64-bit xorshift threaded through every draw, so a
//! render is a pure function of the scene, the camera and one seed.  The
//! bounded rejection loops mirror the usual sample-until-inside idiom but
//! fall back to a fixed in-range vector after a fixed number of tries, so
//! that every function terminates on every seed.

use vstd::prelude::*;

use crate::fixed::{mul_fx, sat64, UNIT};
use crate::vec3::{vdot, vlen2, vneg, vunit, V3, Vec3};

verus! {

/// Number of draws a rejection sampler makes before falling back.
pub const SAMPLE_TRIES: u32 = 32;

/// The fallback direction of the rejection samplers: strictly inside the
/// unit ball and nonzero.
pub const HALF_UNIT: i64 = 32768;

/// One xorshift step of the generator state.
pub open spec fn rng_next(s: u64) -> u64 {
    let a = s ^ (s << 13);
    let b = a ^ (a >> 7);
    b ^ (b << 17)
}

/// The fixed-point unit-interval value drawn after one step.
pub open spec fn rng_unit(s: u64) -> int {
    (rng_next(s) >> 48) as int
}

/// A draw in `[min, max)`: the unit draw scaled into the interval.
pub open spec fn rng_range(s: u64, min: int, max: int) -> int {
    sat64(mul_fx(rng_unit(s), sat64(max - min)) + min)
}

proof fn lemma_shift48_bound(x: u64)
    by (bit_vector)
    ensures
        x >> 48 < 65536,
{
}

pub struct Rng {
    pub state: u64,
}

impl Rng {
    /// A generator from a caller-chosen seed (zero is displaced, as the
    /// xorshift fixes it).
    pub fn new(seed: u64) -> (r: Rng)
        ensures
            r.state == if seed == 0 {
                0x9E3779B97F4A7C15u64
            } else {
                seed
            },
    {
        if seed == 0 {
            Rng { state: 0x9E3779B97F4A7C15 }
        } else {
            Rng { state: seed }
        }
    }

    /// A generator seeded from machine entropy.
    pub fn from_entropy() -> (r: Rng)
        ensures
            r.state != 0,
    {
        Rng::new(entropy_u64())
    }

    /// One uniform draw from the fixed-point unit interval `[0, 1)`.
    pub fn gen_random(&mut self) -> (r: i64)
        ensures
            final(self).state == rng_next(old(self).state),
            r as int == rng_unit(old(self).state),
            0 <= r < UNIT,
    {
        let a: u64 = self.state ^ (self.state << 13);
        let b: u64 = a ^ (a >> 7);
        let c: u64 = b ^ (b << 17);
        self.state = c;
        let out: u64 = c >> 48;
        proof {
            lemma_shift48_bound(c);
        }
        out as i64
    }

    /// One uniform draw from `[min, max)`, by scaling the unit draw.
    pub fn gen_random_range(&mut self, min: i64, max: i64) -> (r: i64)
        ensures
            final(self).state == rng_next(old(self).state),
            r as int == rng_range(old(self).state, min as int, max as int),
    {
        let u: i64 = self.gen_random();
        let w: i64 = crate::fixed::sub_fx(max, min);
        crate::fixed::add_fx(crate::fixed::mul_fx_e(u, w), min)
    }
}

/// Relies on rand::random::<u64>: a machine-entropy value, of which nothing
/// is promised.
#[verifier::external_body]
fn entropy_u64() -> u64 {
    rand::random::<u64>()
}

/// Three consecutive draws in `[-1, 1)`, as a candidate direction.
pub open spec fn draw3(s: u64) -> (V3, u64) {
    let c1 = rng_range(s, -(UNIT as int), UNIT as int);
    let s1 = rng_next(s);
    let c2 = rng_range(s1, -(UNIT as int), UNIT as int);
    let s2 = rng_next(s1);
    let c3 = rng_range(s2, -(UNIT as int), UNIT as int);
    let s3 = rng_next(s2);
    (V3 { x: c1, y: c2, z: c3 }, s3)
}

/// Rejection sampling of a nonzero vector strictly inside the unit ball,
/// with a fixed fallback when the tries run out.
pub open spec fn random_vec_rec(s: u64, tries: nat) -> (V3, u64)
    decreases tries,
{
    if tries == 0 {
        (V3 { x: HALF_UNIT as int, y: 0, z: 0 }, s)
    } else {
        let (v, s3) = draw3(s);
        if 0 < vlen2(v) < UNIT {
            (v, s3)
        } else {
            random_vec_rec(s3, (tries - 1) as nat)
        }
    }
}

pub open spec fn random_vec_spec(s: u64) -> (V3, u64) {
    random_vec_rec(s, SAMPLE_TRIES as nat)
}

/// Whatever the seed, the sampled vector is nonzero and inside the ball.
pub proof fn lemma_random_vec_in_ball(s: u64, tries: nat)
    ensures
        0 < vlen2(random_vec_rec(s, tries).0) < UNIT,
    decreases tries,
{
    if tries == 0 {
        assert(vlen2(V3 { x: HALF_UNIT as int, y: 0, z: 0 }) == 16384);
    } else {
        let (v, s3) = draw3(s);
        if 0 < vlen2(v) < UNIT {
        } else {
            lemma_random_vec_in_ball(s3, (tries - 1) as nat);
        }
    }
}

/// A unit-length direction: a ball sample rescaled to length one.
pub open spec fn random_unit_vec_spec(s: u64) -> (V3, u64) {
    let (v, s2) = random_vec_spec(s);
    (vunit(v), s2)
}

/// A unit direction on the side of the surface that `normal` faces.
pub open spec fn unit_hemisphere_spec(normal: V3, s: u64) -> (V3, u64) {
    let (v, s2) = random_unit_vec_spec(s);
    if vdot(normal, v) > 0 {
        (v, s2)
    } else {
        (vneg(v), s2)
    }
}

/// Rejection sampling in the unit disk of the xy plane.
pub open spec fn unit_disk_rec(s: u64, tries: nat) -> (V3, u64)
    decreases tries,
{
    if tries == 0 {
        (V3 { x: HALF_UNIT as int, y: 0, z: 0 }, s)
    } else {
        let c1 = rng_range(s, -(UNIT as int), UNIT as int);
        let s1 = rng_next(s);
        let c2 = rng_range(s1, -(UNIT as int), UNIT as int);
        let s2 = rng_next(s1);
        let v = V3 { x: c1, y: c2, z: 0 };
        if vlen2(v) < UNIT {
            (v, s2)
        } else {
            unit_disk_rec(s2, (tries - 1) as nat)
        }
    }
}

impl Vec3 {
    /// A vector with each component drawn uniformly from `[-1, 1)`.
    pub fn random(rng: &mut Rng) -> (r: Vec3)
        ensures
            r@ == draw3(old(rng).state).0,
            final(rng).state == draw3(old(rng).state).1,
    {
        let c1: i64 = rng.gen_random_range(-UNIT, UNIT);
        let c2: i64 = rng.gen_random_range(-UNIT, UNIT);
        let c3: i64 = rng.gen_random_range(-UNIT, UNIT);
        Vec3 { x: c1, y: c2, z: c3 }
    }

    /// A nonzero vector strictly inside the unit ball.
    #[verifier::loop_isolation(false)]
    pub fn random_vec(rng: &mut Rng) -> (r: Vec3)
        ensures
            r@ == random_vec_spec(old(rng).state).0,
            final(rng).state == random_vec_spec(old(rng).state).1,
            0 < vlen2(r@) < UNIT,
    {
        proof {
            lemma_random_vec_in_ball(rng.state, SAMPLE_TRIES as nat);
        }
        let ghost s0: u64 = rng.state;
        let mut tries: u32 = SAMPLE_TRIES;
        while tries > 0
            invariant
                tries <= SAMPLE_TRIES,
                random_vec_rec(s0, SAMPLE_TRIES as nat) == random_vec_rec(
                    rng.state,
                    tries as nat,
                ),
            decreases tries,
        {
            let ghost s_pre: u64 = rng.state;
            let v: Vec3 = Vec3::random(rng);
            let n2: i64 = v.len2();
            if 0 < n2 && n2 < UNIT {
                proof {
                    assert(random_vec_rec(s_pre, tries as nat) == (v@, rng.state));
                }
                return v;
            }
            tries = tries - 1;
            proof {
                assert(random_vec_rec(s_pre, (tries + 1) as nat) == random_vec_rec(
                    rng.state,
                    tries as nat,
                ));
            }
        }
        proof {
            lemma_random_vec_in_ball(s0, SAMPLE_TRIES as nat);
        }
        Vec3 { x: HALF_UNIT, y: 0, z: 0 }
    }

    /// A direction of unit length, uniform over the sphere up to the
    /// rejection shaping.
    pub fn random_unit_vec(rng: &mut Rng) -> (r: Vec3)
        ensures
            r@ == random_unit_vec_spec(old(rng).state).0,
            final(rng).state == random_unit_vec_spec(old(rng).state).1,
    {
        let v: Vec3 = Vec3::random_vec(rng);
        proof {
            crate::vec3::lemma_vlen_pos(v@);
        }
        v.unit()
    }

    /// A unit direction in the hemisphere of the surface normal.
    pub fn vec_in_unit_hemisphere(normal: Vec3, rng: &mut Rng) -> (r: Vec3)
        ensures
            r@ == unit_hemisphere_spec(normal@, old(rng).state).0,
            final(rng).state == unit_hemisphere_spec(normal@, old(rng).state).1,
    {
        let v: Vec3 = Vec3::random_unit_vec(rng);
        if Vec3::dot(normal, v) > 0 {
            v
        } else {
            v.neg()
        }
    }

    /// A vector in the unit disk of the xy plane.
    #[verifier::loop_isolation(false)]
    pub fn vec_in_unit_disk(rng: &mut Rng) -> (r: Vec3)
        ensures
            r@ == unit_disk_rec(old(rng).state, SAMPLE_TRIES as nat).0,
            final(rng).state == unit_disk_rec(old(rng).state, SAMPLE_TRIES as nat).1,
    {
        let ghost s0: u64 = rng.state;
        let mut tries: u32 = SAMPLE_TRIES;
        while tries > 0
            invariant
                tries <= SAMPLE_TRIES,
                unit_disk_rec(s0, SAMPLE_TRIES as nat) == unit_disk_rec(rng.state, tries as nat),
            decreases tries,
        {
            let ghost s_pre: u64 = rng.state;
            let c1: i64 = rng.gen_random_range(-UNIT, UNIT);
            let c2: i64 = rng.gen_random_range(-UNIT, UNIT);
            let v: Vec3 = Vec3 { x: c1, y: c2, z: 0 };
            let n2: i64 = v.len2();
            if n2 < UNIT {
                proof {
                    assert(unit_disk_rec(s_pre, tries as nat) == (v@, rng.state));
                }
                return v;
            }
            tries = tries - 1;
            proof {
                assert(unit_disk_rec(s_pre, (tries + 1) as nat) == unit_disk_rec(
                    rng.state,
                    tries as nat,
                ));
            }
        }
        Vec3 { x: HALF_UNIT, y: 0, z: 0 }
    }
}

} // verus!
