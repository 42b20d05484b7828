//! A software framebuffer: a flat row-major pixel buffer with a current
//! drawing color and clipped single-pixel writes.

use vstd::prelude::*;

verus! {

/// The color every pixel takes after a clear.
pub const BACKGROUND_COLOR: u32 = 0x000000;

/// A flat `width * height` pixel buffer in row-major order, plus the color
/// used by subsequent `point` calls.
pub struct Framebuffer {
    pub width: usize,
    pub height: usize,
    pub buffer: Vec<u32>,
    pub current_color: u32,
}

/// The buffer holds exactly one packed color per pixel.
pub open spec fn fb_wf(fb: Framebuffer) -> bool {
    fb.buffer.len() == fb.width * fb.height
}

/// The row-major index of the pixel at `(x, y)`.
pub open spec fn pixel_index(fb: Framebuffer, x: int, y: int) -> int {
    y * fb.width + x
}

impl Framebuffer {
    /// A buffer of the given dimensions, every pixel at the background
    /// color.
    pub fn new(width: usize, height: usize) -> (fb: Framebuffer)
        requires
            width * height <= 0x1000_0000,
        ensures
            fb_wf(fb),
            fb.width == width,
            fb.height == height,
            fb.current_color == BACKGROUND_COLOR,
            forall|i: int| 0 <= i < fb.buffer.len() ==> fb.buffer[i] == BACKGROUND_COLOR,
    {
        let n: usize = width * height;
        let mut buffer: Vec<u32> = Vec::new();
        let mut i: usize = 0;
        while i < n
            invariant
                i <= n,
                buffer.len() == i,
                forall|j: int| 0 <= j < i ==> buffer[j] == BACKGROUND_COLOR,
            decreases n - i,
        {
            buffer.push(BACKGROUND_COLOR);
            i += 1;
        }
        Framebuffer { width, height, buffer, current_color: BACKGROUND_COLOR }
    }

    /// Every pixel reset to the background color; dimensions and current
    /// color kept.
    pub fn clear(&mut self)
        requires
            fb_wf(*old(self)),
        ensures
            fb_wf(*final(self)),
            final(self).width == old(self).width,
            final(self).height == old(self).height,
            final(self).current_color == old(self).current_color,
            final(self).buffer.len() == old(self).buffer.len(),
            forall|i: int|
                0 <= i < final(self).buffer.len() ==> final(self).buffer[i] == BACKGROUND_COLOR,
    {
        let n: usize = self.buffer.len();
        let mut i: usize = 0;
        while i < n
            invariant
                i <= n,
                n == self.buffer.len(),
                self.width == old(self).width,
                self.height == old(self).height,
                self.current_color == old(self).current_color,
                self.buffer.len() == old(self).buffer.len(),
                forall|j: int| 0 <= j < i ==> self.buffer[j] == BACKGROUND_COLOR,
            decreases n - i,
        {
            self.buffer.set(i, BACKGROUND_COLOR);
            i += 1;
        }
    }

    /// The color used by subsequent `point` calls.
    pub fn set_current_color(&mut self, color: u32)
        ensures
            final(self).width == old(self).width,
            final(self).height == old(self).height,
            final(self).buffer == old(self).buffer,
            final(self).current_color == color,
    {
        self.current_color = color;
    }

    /// The current color written at `(x, y)`; writes outside the buffer are
    /// silently clipped. The depth value is carried by the caller but not
    /// compared: the last write at a coordinate wins.
    pub fn point(&mut self, x: usize, y: usize, depth: i64)
        requires
            fb_wf(*old(self)),
        ensures
            fb_wf(*final(self)),
            final(self).width == old(self).width,
            final(self).height == old(self).height,
            final(self).current_color == old(self).current_color,
            x < old(self).width && y < old(self).height ==> final(self).buffer@ == old(
                self,
            ).buffer@.update(
                pixel_index(*old(self), x as int, y as int),
                old(self).current_color,
            ),
            !(x < old(self).width && y < old(self).height) ==> final(self).buffer@ == old(
                self,
            ).buffer@,
    {
        if x < self.width && y < self.height {
            proof {
                vstd::arithmetic::mul::lemma_mul_inequality(
                    y as int + 1,
                    self.height as int,
                    self.width as int,
                );
                vstd::arithmetic::mul::lemma_mul_is_distributive_add_other_way(
                    self.width as int,
                    y as int,
                    1,
                );
                vstd::arithmetic::mul::lemma_mul_is_commutative(y as int, self.width as int);
                vstd::arithmetic::mul::lemma_mul_is_commutative(
                    self.height as int,
                    self.width as int,
                );
            }
            let idx: usize = y * self.width + x;
            let color = self.current_color;
            self.buffer.set(idx, color);
        }
    }
}

} // verus!
