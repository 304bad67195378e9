//! A frame of samples with its size.
use crate::scripting::{py_index, py_slice, slice_bounds_ok, spec_py_index, spec_py_slice};
use vstd::prelude::*;

verus! {

/// A frame of `width` by `height` samples, row by row.
#[derive(Debug)]
pub struct Pixel<T> {
    pub width: usize,
    pub height: usize,
    pub data: Vec<T>,
}

/// Whether `(x, y)` names a sample that `data` holds, in a frame `width` wide.
pub open spec fn holds_site(len: nat, width: nat, x: nat, y: nat) -> bool {
    x + y * width < len
}

/// A sample written at `(x, y)` is the one read there afterwards, and every
/// other site keeps its sample.
pub proof fn law_set_then_get<T>(data: Seq<T>, width: nat, x: nat, y: nat, val: T, x2: nat, y2: nat)
    requires
        holds_site(data.len(), width, x, y),
        holds_site(data.len(), width, x2, y2),
        x < width,
        x2 < width,
    ensures
        data.update((x + y * width) as int, val)[(x + y * width) as int] == val,
        (x2 != x || y2 != y) ==> data.update((x + y * width) as int, val)[(x2 + y2 * width) as int]
            == data[(x2 + y2 * width) as int],
{
    if x2 != x || y2 != y {
        if y2 == y {
            assert(x2 + y2 * width != x + y * width);
        } else if y2 < y {
            assert(y2 * width + width <= y * width) by (nonlinear_arith)
                requires
                    y2 < y,
            ;
        } else {
            assert(y * width + width <= y2 * width) by (nonlinear_arith)
                requires
                    y < y2,
            ;
        }
    }
}

impl<T: Copy> Pixel<T> {
    /// The sample at position `index` of the data.
    pub fn index(&self, index: usize) -> (r: T)
        requires
            index < self.data@.len(),
        ensures
            r == self.data@[index as int],
    {
        self.data[index]
    }

    /// The sample at column `x` of row `y`.
    pub fn get(&self, x: usize, y: usize) -> (r: T)
        requires
            holds_site(self.data@.len(), self.width as nat, x as nat, y as nat),
        ensures
            r == self.data@[x + y * self.width],
    {
        proof {
            assert(0 <= y * self.width) by (nonlinear_arith);
        }
        // the data's length bounds the position
        let _len = self.data.len();
        self.data[x + y * self.width]
    }

    /// Writes the sample at column `x` of row `y`.
    pub fn set(&mut self, x: usize, y: usize, val: T)
        requires
            holds_site(old(self).data@.len(), old(self).width as nat, x as nat, y as nat),
        ensures
            final(self).width == old(self).width,
            final(self).height == old(self).height,
            final(self).data@ == old(self).data@.update(x + y * old(self).width, val),
    {
        proof {
            assert(0 <= y * self.width) by (nonlinear_arith);
        }
        // the data's length bounds the position
        let _len = self.data.len();
        let i = x + y * self.width;
        self.data.set(i, val);
    }

    pub fn width(&self) -> (r: usize)
        ensures
            r == self.width,
    {
        self.width
    }

    pub fn height(&self) -> (r: usize)
        ensures
            r == self.height,
    {
        self.height
    }

    /// A copy of the samples.
    pub fn to_array(&self) -> (r: Vec<T>)
        ensures
            r@ == self.data@,
    {
        let mut out: Vec<T> = Vec::new();
        let mut i: usize = 0;
        while i < self.data.len()
            invariant
                i <= self.data@.len(),
                out@ == self.data@.take(i as int),
            decreases self.data@.len() - i,
        {
            out.push(self.data[i]);
            i = i + 1;
            proof {
                assert(out@ =~= self.data@.take(i as int));
            }
        }
        proof {
            assert(self.data@.take(i as int) =~= self.data@);
        }
        out
    }

    /// Replaces the samples with `src`; the size stays as it was.
    pub fn from_array(&mut self, src: Vec<T>)
        ensures
            final(self).width == old(self).width,
            final(self).height == old(self).height,
            final(self).data@ == src@,
    {
        self.data.clear();
        let mut src = src;
        self.data.append(&mut src);
    }

    /// The sample that a script's index names, from the end when negative;
    /// `None` when out of range.
    pub fn getitem_index(&self, idx: isize) -> (r: Option<T>)
        requires
            self.data@.len() <= isize::MAX,
        ensures
            match spec_py_index(self.data@.len() as int, idx as int) {
                Some(i) => r == Some(self.data@[i]),
                None => r is None,
            },
    {
        match py_index(self.data.len(), idx) {
            Some(i) => Some(self.data[i]),
            None => None,
        }
    }

    /// The samples that a script's resolved slice names.
    pub fn getitem_slice(&self, start: isize, stop: isize, step: isize) -> (r: Vec<T>)
        requires
            slice_bounds_ok(self.data@.len() as int, start as int, stop as int, step as int),
        ensures
            r@ == spec_py_slice(self.data@, start as int, stop as int, step as int),
    {
        py_slice(self.data.as_slice(), start, stop, step)
    }
}

/// Making a frame out of samples.
pub trait PixelCast {
    type Item;

    fn into_pixel(self, width: usize, height: usize) -> Pixel<Self::Item>;
}

impl PixelCast for Vec<i32> {
    type Item = i32;

    /// The samples as a frame of the size given.
    fn into_pixel(self, width: usize, height: usize) -> (r: Pixel<i32>)
        ensures
            r.width == width,
            r.height == height,
            r.data@ == self@,
    {
        Pixel { width, height, data: self }
    }
}

} // verus!
