//! The grid of packed colors that a render fills.
use vstd::prelude::*;

verus! {

/// `width` by `height` packed colors, row by row from the top.
#[derive(Debug)]
pub struct Framebuffer {
    pub width: usize,
    pub height: usize,
    pub buffer: Vec<u32>,
}

impl Framebuffer {
    /// The buffer holds exactly `width * height` pixels.
    pub open spec fn wf(&self) -> bool {
        self.buffer@.len() == self.width * self.height
    }

    /// A framebuffer of the given size, all black.
    pub fn new(width: usize, height: usize) -> (f: Framebuffer)
        requires
            width * height <= usize::MAX,
        ensures
            f.wf(),
            f.width == width,
            f.height == height,
            forall|i: int| 0 <= i < width * height ==> f.buffer@[i] == 0,
    {
        let buffer: Vec<u32> = vec![0u32; width * height];
        Framebuffer { width, height, buffer }
    }
}

} // verus!
