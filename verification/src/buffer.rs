//! A dense, row-major pixel grid with explicit width and height, the one
//! buffer representation every stage of the pipeline consumes and produces.

use vstd::prelude::*;

verus! {

/// A dense two-dimensional grid of samples, stored row-major: the sample at
/// column `x` of row `y` sits at index `y * width + x` of `data`.
#[derive(Debug, PartialEq, Eq)]
pub struct Buffer<P> {
    pub width: u32,
    pub height: u32,
    pub data: Vec<P>,
}

/// Within one row of a `w`-column grid, a cell's flat index stays inside the
/// grid and never drops below the start of its row.
pub proof fn lemma_grid_index(x: int, y: int, w: int, h: int)
    requires
        0 <= x < w,
        0 <= y < h,
    ensures
        0 <= y * w,
        y * w + x < w * h,
{
    assert(0 <= y * w && y * w + x < w * h) by (nonlinear_arith)
        requires
            0 <= x < w,
            0 <= y < h,
    ;
}

/// Distinct cells of a `w`-column grid have distinct flat indices.
pub proof fn lemma_grid_index_injective(x1: int, y1: int, x2: int, y2: int, w: int)
    requires
        0 <= x1 < w,
        0 <= x2 < w,
        0 <= y1,
        0 <= y2,
        y1 * w + x1 == y2 * w + x2,
    ensures
        x1 == x2,
        y1 == y2,
{
    assert(x1 == x2 && y1 == y2) by (nonlinear_arith)
        requires
            0 <= x1 < w,
            0 <= x2 < w,
            0 <= y1,
            0 <= y2,
            y1 * w + x1 == y2 * w + x2,
    ;
}

impl<P: Copy> Buffer<P> {
    /// The buffer holds exactly one sample per grid cell.
    pub open spec fn wf(self) -> bool {
        self.data@.len() == self.width * self.height
    }

    /// The sample stored at column `x` of row `y`.
    pub open spec fn at(self, x: int, y: int) -> P {
        self.data@[y * self.width + x]
    }

    /// A fresh `width` by `height` buffer with every cell set to `fill`.
    pub fn new(width: u32, height: u32, fill: P) -> (r: Self)
        requires
            width * height <= usize::MAX,
        ensures
            r.wf(),
            r.width == width,
            r.height == height,
            forall|x: int, y: int|
                0 <= x < width && 0 <= y < height ==> r.at(x, y) == fill,
    {
        let n: usize = (width as usize) * (height as usize);
        let mut data: Vec<P> = Vec::new();
        let mut i: usize = 0;
        while i < n
            invariant
                i <= n,
                data@.len() == i,
                forall|k: int| 0 <= k < i ==> data@[k] == fill,
            decreases n - i,
        {
            data.push(fill);
            i = i + 1;
        }
        let r = Buffer { width, height, data };
        proof {
            assert forall|x: int, y: int|
                0 <= x < width && 0 <= y < height implies r.at(x, y) == fill by {
                lemma_grid_index(x, y, width as int, height as int);
            }
        }
        r
    }

    /// Reads the sample at column `x` of row `y`.
    pub fn get(&self, x: u32, y: u32) -> (r: P)
        requires
            self.wf(),
            x < self.width,
            y < self.height,
        ensures
            r == self.at(x as int, y as int),
    {
        // reading the vector's length bounds it by the machine word, which
        // the flat-index arithmetic below needs
        let _len: usize = self.data.len();
        proof {
            lemma_grid_index(x as int, y as int, self.width as int, self.height as int);
        }
        let idx: usize = (y as usize) * (self.width as usize) + (x as usize);
        self.data[idx]
    }

    /// Overwrites the sample at column `x` of row `y`, leaving every other
    /// cell and the dimensions unchanged.
    pub fn set(&mut self, x: u32, y: u32, p: P)
        requires
            old(self).wf(),
            x < old(self).width,
            y < old(self).height,
        ensures
            final(self).wf(),
            final(self).width == old(self).width,
            final(self).height == old(self).height,
            final(self).at(x as int, y as int) == p,
            forall|x2: int, y2: int|
                0 <= x2 < old(self).width && 0 <= y2 < old(self).height
                    && !(x2 == x && y2 == y)
                    ==> final(self).at(x2, y2) == old(self).at(x2, y2),
    {
        // reading the vector's length bounds it by the machine word, which
        // the flat-index arithmetic below needs
        let _len: usize = self.data.len();
        proof {
            lemma_grid_index(x as int, y as int, self.width as int, self.height as int);
        }
        let idx: usize = (y as usize) * (self.width as usize) + (x as usize);
        self.data.set(idx, p);
        proof {
            assert forall|x2: int, y2: int|
                0 <= x2 < self.width && 0 <= y2 < self.height && !(x2 == x && y2 == y)
                    implies self.at(x2, y2) == old(self).at(x2, y2) by {
                lemma_grid_index(x2, y2, self.width as int, self.height as int);
                if y2 * self.width + x2 == y * self.width + x {
                    lemma_grid_index_injective(x2, y2, x as int, y as int, self.width as int);
                }
            }
        }
    }

    /// A cell-for-cell copy of the buffer.
    pub fn duplicate(&self) -> (r: Self)
        requires
            self.wf(),
        ensures
            r.wf(),
            r.width == self.width,
            r.height == self.height,
            forall|x: int, y: int|
                0 <= x < self.width && 0 <= y < self.height
                    ==> r.at(x, y) == self.at(x, y),
    {
        let mut data: Vec<P> = Vec::new();
        let n: usize = self.data.len();
        let mut i: usize = 0;
        while i < n
            invariant
                i <= n,
                n == self.data@.len(),
                data@.len() == i,
                forall|k: int| 0 <= k < i ==> data@[k] == self.data@[k],
            decreases n - i,
        {
            data.push(self.data[i]);
            i = i + 1;
        }
        let r = Buffer { width: self.width, height: self.height, data };
        proof {
            assert forall|x: int, y: int|
                0 <= x < self.width && 0 <= y < self.height
                    implies r.at(x, y) == self.at(x, y) by {
                lemma_grid_index(x, y, self.width as int, self.height as int);
            }
        }
        r
    }
}

} // verus!
