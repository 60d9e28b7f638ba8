//! The pixel buffer a render produces: accumulated linear-space color sums
//! in row-major order.  Encoding to a file format lives outside the core.

use vstd::prelude::*;

use crate::vec3::Vec3;

verus! {

pub struct Image {
    pub width: u32,
    pub height: u32,
    pub pixels: Vec<Vec3>,
}

impl Image {
    pub fn new(width: u32, height: u32, pixels: Vec<Vec3>) -> (r: Image)
        ensures
            r.width == width,
            r.height == height,
            r.pixels == pixels,
    {
        Image { width, height, pixels }
    }
}

} // verus!
