//! Colors are vectors; this module converts an accumulated color sum to
//! display bytes: divide by the sample count, square-root gamma, scale to
//! 0..255.  Writing the bytes anywhere is a caller's concern.

use vstd::prelude::*;

use crate::fixed::{div_fx, divt, sat64, sqrt_fx, UNIT};
use crate::vec3::{V3, Vec3};

verus! {

pub type Color = Vec3;

/// One channel: average, gamma, scale, clamp to a byte.
pub open spec fn channel_byte(v: int, samples: int) -> int
    recommends
        samples >= 1,
{
    let avg = div_fx(v, sat64(samples * (UNIT as int)));
    let g = sqrt_fx(avg);
    let scaled = divt(g * 255, UNIT as int);
    if scaled < 0 {
        0
    } else if scaled > 255 {
        255
    } else {
        scaled
    }
}

pub open spec fn rgb8_spec(c: V3, samples: int) -> (int, int, int) {
    (channel_byte(c.x, samples), channel_byte(c.y, samples), channel_byte(c.z, samples))
}

fn channel_byte_e(v: i64, samples: u32) -> (r: u8)
    requires
        samples >= 1,
    ensures
        r as int == channel_byte(v as int, samples as int),
{
    proof {
        crate::fixed::lemma_mul_bound(samples as int, UNIT as int, 0x1_0000_0000, 0x1_0000);
        assert(samples as int * (UNIT as int) >= UNIT as int) by (nonlinear_arith)
            requires
                samples >= 1,
        {
        }
    }
    let denom: i64 = crate::fixed::sat_i64((samples as i128) * (UNIT as i128));
    let avg: i64 = crate::fixed::div_fx_e(v, denom);
    let g: i64 = crate::fixed::sqrt_fx_e(avg);
    proof {
        crate::fixed::lemma_mul_bound(g as int, 255, 0x8000_0000_0000_0000, 255);
        assert(g as int * 255 >= 0) by (nonlinear_arith)
            requires
                g >= 0,
        {
        }
    }
    let scaled: i64 = crate::fixed::sat_i64(
        crate::fixed::div_trunc((g as i128) * 255, UNIT as i128),
    );
    proof {
        let n: int = g as int * 255;
        assert(divt(n, UNIT as int) == n / 65536);
        assert(n / 65536 <= n);
        assert(sat64(divt(n, UNIT as int)) == divt(n, UNIT as int));
    }
    if scaled < 0 {
        0
    } else if scaled > 255 {
        255
    } else {
        scaled as u8
    }
}

impl Vec3 {
    /// The display bytes of an accumulated color: exposure and gamma
    /// applied, exactly as specified by `rgb8_spec`.
    pub fn write_color(&self, samples: u32) -> (r: (u8, u8, u8))
        requires
            samples >= 1,
        ensures
            (r.0 as int, r.1 as int, r.2 as int) == rgb8_spec(self@, samples as int),
    {
        (
            channel_byte_e(self.x, samples),
            channel_byte_e(self.y, samples),
            channel_byte_e(self.z, samples),
        )
    }
}

} // verus!
