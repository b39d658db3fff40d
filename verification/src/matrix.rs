//! A 2D grid of byte-sized cells with bounds-checked access.
//!
//! The matrix stores its cells row-major in a flat vector.  Every access is
//! validated against the grid bounds: an out-of-bounds read yields `None` and
//! an out-of-bounds write is refused and reported, never undefined behaviour.
//! A binary grid stores `0` for white and any non-zero value for black.

use vstd::prelude::*;

verus! {

/// Why a region write was refused.
#[derive(Clone, Copy, Debug, PartialEq, Eq, Structural)]
pub enum GridError {
    /// The region has a zero width or height.
    EmptyRegion,
    /// The region does not lie inside the grid.
    OutOfBounds,
}

pub struct Matrix {
    width: usize,
    height: usize,
    cells: Vec<u8>,
}

impl Matrix {
    /// The matrix is well formed: positive dimensions and one stored cell for
    /// every grid position.
    pub closed spec fn wf(self) -> bool {
        &&& 1 <= self.width <= 0x4000_0000
        &&& 1 <= self.height <= 0x4000_0000
        &&& self.cells.len() == self.width * self.height
    }

    /// Grid dimensions are bounded, so signed 64-bit coordinate arithmetic
    /// around the grid can never overflow.
    pub proof fn lemma_wf_bounds(self)
        requires
            self.wf(),
        ensures
            1 <= self.spec_width() <= 0x4000_0000,
            1 <= self.spec_height() <= 0x4000_0000,
    {
    }

    pub closed spec fn spec_width(self) -> int {
        self.width as int
    }

    pub closed spec fn spec_height(self) -> int {
        self.height as int
    }

    /// Whether `(x, y)` is a grid position.
    pub open spec fn in_bounds(self, x: int, y: int) -> bool {
        0 <= x < self.spec_width() && 0 <= y < self.spec_height()
    }

    /// The cell stored at position `(x, y)`.
    pub closed spec fn spec_cell(self, x: int, y: int) -> u8 {
        self.cells[y * self.spec_width() + x]
    }

    /// Whether the cell at `(x, y)` is black (non-zero).
    pub open spec fn spec_black(self, x: int, y: int) -> bool {
        self.spec_cell(x, y) != 0
    }

    /// A flat row-major index addresses exactly one grid position.
    proof fn lemma_flat_index(self, x: int, y: int)
        requires
            self.wf(),
            self.in_bounds(x, y),
        ensures
            0 <= y * self.spec_width() + x < self.cells.len(),
    {
        let w = self.spec_width();
        let h = self.spec_height();
        assert(y * w + x < h * w) by (nonlinear_arith)
            requires
                0 <= x < w,
                0 <= y < h,
        ;
        assert(h * w == w * h) by (nonlinear_arith);
        assert(0 <= y * w) by (nonlinear_arith)
            requires
                0 <= y,
                0 <= w,
        ;
    }

    /// Distinct grid positions use distinct flat indices.
    proof fn lemma_flat_index_injective(self, x1: int, y1: int, x2: int, y2: int)
        requires
            self.wf(),
            self.in_bounds(x1, y1),
            self.in_bounds(x2, y2),
            y1 * self.spec_width() + x1 == y2 * self.spec_width() + x2,
        ensures
            x1 == x2 && y1 == y2,
    {
        let w = self.spec_width();
        assert(y1 == y2 && x1 == x2) by (nonlinear_arith)
            requires
                0 <= x1 < w,
                0 <= x2 < w,
                0 <= y1,
                0 <= y2,
                y1 * w + x1 == y2 * w + x2,
        ;
    }

    /// Creates a grid of the given dimensions with every cell white (`0`).
    ///
    /// Zero dimensions are a caller contract violation and are excluded, as is
    /// a cell count beyond the address space.
    pub fn new(width: usize, height: usize) -> (r: Matrix)
        requires
            1 <= width <= 0x4000_0000,
            1 <= height <= 0x4000_0000,
            width * height <= usize::MAX,
        ensures
            r.wf(),
            r.spec_width() == width,
            r.spec_height() == height,
            forall|x: int, y: int| r.in_bounds(x, y) ==> r.spec_cell(x, y) == 0,
    {
        proof {
            assert(width * height >= 1) by (nonlinear_arith)
                requires
                    1 <= width,
                    1 <= height,
            ;
        }
        let n: usize = width * height;
        let mut cells: Vec<u8> = Vec::new();
        let mut i: usize = 0;
        while i < n
            invariant
                i <= n,
                cells.len() == i,
                forall|k: int| 0 <= k < i ==> cells[k] == 0,
            decreases n - i,
        {
            cells.push(0);
            i += 1;
        }
        let r = Matrix { width, height, cells };
        proof {
            assert forall|x: int, y: int| r.in_bounds(x, y) implies r.spec_cell(x, y) == 0 by {
                r.lemma_flat_index(x, y);
            }
        }
        r
    }

    pub fn width(&self) -> (r: usize)
        ensures
            r == self.spec_width(),
    {
        self.width
    }

    pub fn height(&self) -> (r: usize)
        ensures
            r == self.spec_height(),
    {
        self.height
    }

    /// Reads the cell at `(x, y)`, or `None` when the position lies outside
    /// the grid.
    pub fn get(&self, x: i64, y: i64) -> (r: Option<u8>)
        requires
            self.wf(),
        ensures
            r == if self.in_bounds(x as int, y as int) {
                Some(self.spec_cell(x as int, y as int))
            } else {
                None::<u8>
            },
    {
        if 0 <= x && 0 <= y && (x as u64) < (self.width as u64) && (y as u64) < (self.height
            as u64) {
            let xi: usize = x as usize;
            let yi: usize = y as usize;
            proof {
                self.lemma_flat_index(x as int, y as int);
            }
            Some(self.cells[yi * self.width + xi])
        } else {
            None
        }
    }

    /// Writes `v` to the cell at `(x, y)`.  Returns whether the position was
    /// inside the grid; an out-of-bounds write changes nothing.
    pub fn set(&mut self, x: i64, y: i64, v: u8) -> (ok: bool)
        requires
            old(self).wf(),
        ensures
            final(self).wf(),
            final(self).spec_width() == old(self).spec_width(),
            final(self).spec_height() == old(self).spec_height(),
            ok == old(self).in_bounds(x as int, y as int),
            ok ==> final(self).spec_cell(x as int, y as int) == v,
            forall|i: int, j: int|
                old(self).in_bounds(i, j) && (i != x as int || j != y as int)
                    ==> final(self).spec_cell(i, j) == old(self).spec_cell(i, j),
            !ok ==> *final(self) == *old(self),
    {
        if 0 <= x && 0 <= y && (x as u64) < (self.width as u64) && (y as u64) < (self.height
            as u64) {
            let xi: usize = x as usize;
            let yi: usize = y as usize;
            proof {
                self.lemma_flat_index(x as int, y as int);
            }
            let idx: usize = yi * self.width + xi;
            self.cells[idx] = v;
            proof {
                assert forall|i: int, j: int|
                    old(self).in_bounds(i, j) && (i != x as int || j != y as int) implies self
                    .spec_cell(i, j) == old(self).spec_cell(i, j) by {
                    old(self).lemma_flat_index(i, j);
                    let w = old(self).spec_width();
                    if j * w + i == y as int * w + x as int {
                        old(self).lemma_flat_index_injective(i, j, x as int, y as int);
                    }
                }
            }
            true
        } else {
            false
        }
    }

    /// Sets every cell of the rectangle of size `w` by `h` whose top-left
    /// corner is `(x, y)` to black (`1`).  The whole rectangle must lie inside
    /// the grid and be non-empty, else the write is refused and the grid is
    /// unchanged.
    pub fn set_region(&mut self, x: usize, y: usize, w: usize, h: usize) -> (r: Result<
        (),
        GridError,
    >)
        requires
            old(self).wf(),
        ensures
            final(self).wf(),
            final(self).spec_width() == old(self).spec_width(),
            final(self).spec_height() == old(self).spec_height(),
            r == if w < 1 || h < 1 {
                Err::<(), GridError>(GridError::EmptyRegion)
            } else if x + w > old(self).spec_width() || y + h > old(self).spec_height() {
                Err::<(), GridError>(GridError::OutOfBounds)
            } else {
                Ok::<(), GridError>(())
            },
            r is Err ==> *final(self) == *old(self),
            r is Ok ==> forall|i: int, j: int|
                old(self).in_bounds(i, j) ==> final(self).spec_cell(i, j) == if x <= i < x + w && y
                    <= j < y + h {
                    1u8
                } else {
                    old(self).spec_cell(i, j)
                },
    {
        if w < 1 || h < 1 {
            return Err(GridError::EmptyRegion);
        }
        if w > self.width || x > self.width - w || h > self.height || y > self.height - h {
            return Err(GridError::OutOfBounds);
        }
        let mut j: usize = y;
        while j < y + h
            invariant
                self.wf(),
                self.spec_width() == old(self).spec_width(),
                self.spec_height() == old(self).spec_height(),
                1 <= w,
                1 <= h,
                x + w <= self.spec_width(),
                y + h <= self.spec_height(),
                y <= j <= y + h,
                forall|i2: int, j2: int|
                    old(self).in_bounds(i2, j2) ==> self.spec_cell(i2, j2) == if x <= i2 < x + w
                        && y <= j2 < j {
                        1u8
                    } else {
                        old(self).spec_cell(i2, j2)
                    },
            decreases y + h - j,
        {
            let mut i: usize = x;
            while i < x + w
                invariant
                    self.wf(),
                    self.spec_width() == old(self).spec_width(),
                    self.spec_height() == old(self).spec_height(),
                    1 <= w,
                    1 <= h,
                    x + w <= self.spec_width(),
                    y + h <= self.spec_height(),
                    y <= j < y + h,
                    x <= i <= x + w,
                    forall|i2: int, j2: int|
                        old(self).in_bounds(i2, j2) ==> self.spec_cell(i2, j2) == if (x <= i2 < x
                            + w && y <= j2 < j) || (j2 == j && x <= i2 < i) {
                            1u8
                        } else {
                            old(self).spec_cell(i2, j2)
                        },
                decreases x + w - i,
            {
                self.set(i as i64, j as i64, 1);
                i += 1;
            }
            j += 1;
        }
        Ok(())
    }
}

} // verus!
