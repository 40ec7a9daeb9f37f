//! A true-colour pixel buffer.

use vstd::prelude::*;

verus! {

/// A colour as red, green and blue intensities.
#[derive(Clone, Copy)]
pub struct RGB(pub [u8; 3]);

impl RGB {
    /// Replaces every channel by its complement.
    pub fn invert(&mut self)
        ensures
            forall|i: int| 0 <= i < 3 ==> #[trigger] final(self).0@[i] == 255 - old(self).0@[i],
    {
        let mut i: usize = 0;
        while i < 3
            invariant
                0 <= i <= 3,
                forall|k: int| 0 <= k < i ==> #[trigger] self.0@[k] == 255 - old(self).0@[k],
                forall|k: int| i <= k < 3 ==> #[trigger] self.0@[k] == old(self).0@[k],
            decreases 3 - i,
        {
            self.0[i] = 0xFF - self.0[i];
            i += 1;
        }
    }
}

/// A `width` by `height` buffer of colours, stored row after row.
pub struct Framebuffer {
    pub data: Vec<RGB>,
    pub height: usize,
    pub width: usize,
}

impl Framebuffer {
    /// The buffer holds one colour for each of its `width * height` pixels.
    pub open spec fn wf(&self) -> bool {
        self.data@.len() == self.width * self.height
    }

    /// The place in `data` of the pixel in column `index.0` of row `index.1`.
    pub open spec fn offset(&self, index: (usize, usize)) -> int {
        index.0 + index.1 * self.width
    }

    /// A buffer of the given size with every channel of every pixel zero.
    pub fn new(width: usize, height: usize) -> (r: Self)
        requires
            width * height <= usize::MAX,
        ensures
            r.wf(),
            r.width == width,
            r.height == height,
            forall|i: int, c: int|
                0 <= i < width * height && 0 <= c < 3 ==> (#[trigger] r.data@[i].0@[c]) == 0,
    {
        let count: usize = width * height;
        let mut data: Vec<RGB> = Vec::new();
        let mut i: usize = 0;
        while i < count
            invariant
                0 <= i <= count,
                data@.len() == i,
                forall|k: int, c: int| 0 <= k < i && 0 <= c < 3 ==> (#[trigger] data@[k].0@[c]) == 0,
            decreases count - i,
        {
            data.push(RGB([0u8; 3]));
            i += 1;
        }
        Self { data, width, height }
    }

    /// The number of pixels.
    pub fn len(&self) -> (r: usize)
        requires
            self.wf(),
        ensures
            r == self.width * self.height,
    {
        self.data.len()
    }

    /// The pixel in column `index.0` of row `index.1`.
    pub fn index(&self, index: (usize, usize)) -> (r: &RGB)
        requires
            self.offset(index) < self.data@.len(),
        ensures
            *r == self.data@[self.offset(index)],
    {
        assert(0 <= index.1 * self.width) by (nonlinear_arith);
        let count: usize = self.data.len();
        assert(self.offset(index) < count);
        &self.data[index.0 + index.1 * self.width]
    }

    /// The pixel in column `index.0` of row `index.1`, to be overwritten.
    pub fn index_mut(&mut self, index: (usize, usize)) -> (r: &mut RGB)
        requires
            old(self).offset(index) < old(self).data@.len(),
        ensures
            *r == old(self).data@[old(self).offset(index)],
            final(self).width == old(self).width,
            final(self).height == old(self).height,
            final(self).data@ == old(self).data@.update(old(self).offset(index), *final(r)),
    {
        assert(0 <= index.1 * self.width) by (nonlinear_arith);
        let count: usize = self.data.len();
        assert(self.offset(index) < count);
        &mut self.data[index.0 + index.1 * self.width]
    }
}

} // verus!
