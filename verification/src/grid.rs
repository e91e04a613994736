use vstd::prelude::*;
use vstd::pervasive::VecAdditionalExecFns;
use crate::cell::Cell;
use crate::model::{GridModel, lemma_coord_index_inverse, lemma_idx_bounds};

verus! {

/// A dense, bounded three-dimensional cellular-automaton grid. Cells are
/// kept in a flat vector addressed by the linear index
/// `x + y*width + z*width*height`, so `x` varies fastest, then `y`, then
/// `z`. The dimensions are fixed at construction.
pub struct Grid3D {
    width: usize,
    height: usize,
    depth: usize,
    cells: Vec<Cell>,
}

impl View for Grid3D {
    type V = GridModel;

    closed spec fn view(&self) -> GridModel {
        GridModel {
            w: self.width as nat,
            h: self.height as nat,
            d: self.depth as nat,
            cells: self.cells@,
        }
    }
}

impl Grid3D {
    /// The backing vector holds exactly one cell per coordinate.
    pub open spec fn wf(&self) -> bool {
        self@.wf()
    }

    /// Create a grid with the given dimensions, every cell empty. A zero
    /// dimension is legal and yields a grid with no addressable cells.
    pub fn new(width: usize, height: usize, depth: usize) -> (r: Grid3D)
        requires
            width * height <= usize::MAX,
            width * height * depth <= usize::MAX,
        ensures
            r.wf(),
            r@ == crate::model::new_model(width as nat, height as nat, depth as nat),
    {
        let total = width * height * depth;
        let mut cells: Vec<Cell> = Vec::new();
        let mut i: usize = 0;
        while i < total
            invariant
                i <= total,
                cells@.len() == i,
                forall|j: int| 0 <= j < i ==> cells@[j] == Cell::Empty,
            decreases total - i,
        {
            cells.push(Cell::Empty);
            i += 1;
        }
        let r = Grid3D { width, height, depth, cells };
        proof {
            assert(r@.cells =~= crate::model::new_model(
                width as nat,
                height as nat,
                depth as nat,
            ).cells);
        }
        r
    }

    /// Linear index of an in-range coordinate.
    fn get_index(&self, x: usize, y: usize, z: usize) -> (i: usize)
        requires
            self.wf(),
            self@.in_bounds(x as int, y as int, z as int),
        ensures
            i == self@.idx(x as int, y as int, z as int),
            i < self@.cells.len(),
    {
        proof {
            vstd::std_specs::vec::axiom_spec_len(&self.cells);
            lemma_idx_bounds(
                self.width as int,
                self.height as int,
                self.depth as int,
                x as int,
                y as int,
                z as int,
            );
        }
        x + y * self.width + z * self.width * self.height
    }

    /// Bounds-checked read: the cell at the coordinate if every component
    /// is strictly below its dimension, nothing otherwise.
    pub fn get(&self, x: usize, y: usize, z: usize) -> (r: Option<Cell>)
        requires
            self.wf(),
        ensures
            r == self@.spec_get(x as int, y as int, z as int),
    {
        if x >= self.width || y >= self.height || z >= self.depth {
            return None;
        }
        let i = self.get_index(x, y, z);
        Some(self.cells[i])
    }

    /// Bounds-checked write: stores the cell and reports success when the
    /// coordinate is in range; reports failure and leaves the grid
    /// untouched otherwise.
    pub fn set(&mut self, x: usize, y: usize, z: usize, cell: Cell) -> (r: bool)
        requires
            old(self).wf(),
        ensures
            final(self).wf(),
            r == old(self)@.in_bounds(x as int, y as int, z as int),
            old(self)@.in_bounds(x as int, y as int, z as int) ==> final(self)@ == old(
                self,
            )@.set_cell(x as int, y as int, z as int, cell),
            !old(self)@.in_bounds(x as int, y as int, z as int) ==> final(self)@ == old(self)@,
    {
        if x >= self.width || y >= self.height || z >= self.depth {
            return false;
        }
        let i = self.get_index(x, y, z);
        self.cells.set(i, cell);
        true
    }

    /// Whether the neighbor of `(x, y, z)` at the offset encoded by
    /// `(cx, cy, cz)` is in range and alive. Each code in `0..3` stands
    /// for the offset component it exceeds by one: `-1`, `0` or `1`.
    fn neighbor_alive(&self, x: usize, y: usize, z: usize, cx: usize, cy: usize, cz: usize) -> (b:
        bool)
        requires
            self.wf(),
            cx < 3,
            cy < 3,
            cz < 3,
        ensures
            b == self@.alive_at(x + cx - 1, y + cy - 1, z + cz - 1),
    {
        let nx = match shift(x, cx, self.width) {
            Some(v) => v,
            None => { return false; },
        };
        let ny = match shift(y, cy, self.height) {
            Some(v) => v,
            None => { return false; },
        };
        let nz = match shift(z, cz, self.depth) {
            Some(v) => v,
            None => { return false; },
        };
        let i = self.get_index(nx, ny, nz);
        self.cells[i] == Cell::Alive
    }

    /// Number of alive cells among the 26 neighbors of a coordinate
    /// (26-connectivity). Neighbors outside the grid are skipped: the grid
    /// has no wraparound, so edge and corner cells have fewer than 26.
    #[verifier::loop_isolation(false)]
    pub fn count_alive_neighbors(&self, x: usize, y: usize, z: usize) -> (r: usize)
        requires
            self.wf(),
        ensures
            r == self@.alive_neighbors(x as int, y as int, z as int),
            r <= 26,
    {
        let mut count: usize = 0;
        let mut k: usize = 0;
        while k < 27
            invariant
                k <= 27,
                count == self@.alive_neighbors_upto(x as int, y as int, z as int, k as int),
                count as int <= if k > 13 {
                    k - 1
                } else {
                    k as int
                },
            decreases 27 - k,
        {
            if k != 13 {
                let cx = k % 3;
                let cy = (k / 3) % 3;
                let cz = k / 9;
                if self.neighbor_alive(x, y, z, cx, cy, cz) {
                    count += 1;
                }
            }
            k += 1;
        }
        count
    }

    /// The next generation's cells, computed entirely from the current
    /// generation: the buffer for the double-buffered advance.
    #[verifier::loop_isolation(false)]
    fn compute_next(&self) -> (nc: Vec<Cell>)
        requires
            self.wf(),
        ensures
            nc@ == self@.step().cells,
    {
        let w = self.width;
        let h = self.height;
        let d = self.depth;
        let mut nc: Vec<Cell> = Vec::new();
        let mut z: usize = 0;
        while z < d
            invariant
                z <= d,
                nc@.len() == z * w * h,
                forall|i: int| 0 <= i < nc@.len() ==> #[trigger] nc@[i] == self@.step().cells[i],
            decreases d - z,
        {
            let mut y: usize = 0;
            while y < h
                invariant
                    y <= h,
                    nc@.len() == z * w * h + y * w,
                    forall|i: int|
                        0 <= i < nc@.len() ==> #[trigger] nc@[i] == self@.step().cells[i],
                decreases h - y,
            {
                let mut x: usize = 0;
                while x < w
                    invariant
                        x <= w,
                        nc@.len() == z * w * h + y * w + x,
                        forall|i: int|
                            0 <= i < nc@.len() ==> #[trigger] nc@[i] == self@.step().cells[i],
                    decreases w - x,
                {
                    let n = self.count_alive_neighbors(x, y, z);
                    let i = self.get_index(x, y, z);
                    let cur = self.cells[i];
                    let next = if cur == Cell::Alive {
                        if 5 <= n && n <= 7 {
                            Cell::Alive
                        } else {
                            Cell::Empty
                        }
                    } else {
                        if 6 <= n && n <= 7 {
                            Cell::Alive
                        } else {
                            Cell::Empty
                        }
                    };
                    proof {
                        lemma_coord_index_inverse(self@, x as int, y as int, z as int);
                        assert(next == self@.step().cells[nc@.len() as int]);
                    }
                    nc.push(next);
                    x += 1;
                }
                proof {
                    assert((y + 1) * w == y * w + w) by (nonlinear_arith);
                }
                y += 1;
            }
            proof {
                assert((z + 1) * w * h == z * w * h + w * h) by (nonlinear_arith);
                assert(y * w == w * h) by (nonlinear_arith)
                    requires
                        y == h,
                ;
            }
            z += 1;
        }
        proof {
            assert(d * w * h == w * h * d) by (nonlinear_arith);
            assert(nc@ =~= self@.step().cells);
        }
        nc
    }

    /// Advance the whole grid one generation. Every neighbor count is
    /// taken from the unmodified current generation; the replacement
    /// cells are swapped in only after every cell has been evaluated.
    pub fn update(&mut self)
        requires
            old(self).wf(),
        ensures
            final(self).wf(),
            final(self)@ == old(self)@.step(),
    {
        let nc = self.compute_next();
        self.cells = nc;
    }

    /// Total number of alive cells in the grid.
    #[verifier::loop_isolation(false)]
    pub fn count_alive(&self) -> (r: usize)
        requires
            self.wf(),
        ensures
            r == self@.alive_count(),
    {
        let mut count: usize = 0;
        let mut i: usize = 0;
        let n = self.cells.len();
        while i < n
            invariant
                i <= n,
                count == crate::model::count_alive_seq(self@.cells.take(i as int)),
                count <= i,
            decreases n - i,
        {
            proof {
                assert(self@.cells.take(i + 1).drop_last() =~= self@.cells.take(i as int));
                assert(self@.cells.take(i + 1).last() == self@.cells[i as int]);
            }
            if self.cells[i] == Cell::Alive {
                count += 1;
            }
            i += 1;
        }
        proof {
            assert(self@.cells.take(n as int) =~= self@.cells);
        }
        count
    }

    /// Every coordinate of the grid, with its cell, as one vector: each
    /// coordinate combination appears exactly once, in storage order
    /// (`x` fastest, then `y`, then `z`), so the element at position `i`
    /// is the cell at linear index `i`.
    #[verifier::loop_isolation(false)]
    pub fn iter_cells(&self) -> (r: Vec<(usize, usize, usize, Cell)>)
        requires
            self.wf(),
        ensures
            r@.len() == self@.w * self@.h * self@.d,
            forall|i: int|
                0 <= i < r@.len() ==> (#[trigger] r@[i]).0 as int == self@.x_of(i) && r@[i].1
                    as int == self@.y_of(i) && r@[i].2 as int == self@.z_of(i) && r@[i].3
                    == self@.cells[i],
            forall|x: int, y: int, z: int|
                self@.in_bounds(x, y, z) ==> (#[trigger] r@[self@.idx(x, y, z)]).0 as int == x
                    && r@[self@.idx(x, y, z)].1 as int == y && r@[self@.idx(x, y, z)].2 as int == z
                    && r@[self@.idx(x, y, z)].3 == self@.cell_at(x, y, z),
    {
        let w = self.width;
        let h = self.height;
        let d = self.depth;
        let mut r: Vec<(usize, usize, usize, Cell)> = Vec::new();
        let mut z: usize = 0;
        proof {
            assert(z * w * h == 0) by (nonlinear_arith)
                requires
                    z == 0,
            ;
        }
        while z < d
            invariant
                z <= d,
                r@.len() == z * w * h,
                forall|i: int|
                    0 <= i < r@.len() ==> (#[trigger] r@[i]).0 as int == self@.x_of(i) && r@[i].1
                        as int == self@.y_of(i) && r@[i].2 as int == self@.z_of(i) && r@[i].3
                        == self@.cells[i],
            decreases d - z,
        {
            let mut y: usize = 0;
            while y < h
                invariant
                    y <= h,
                    r@.len() == z * w * h + y * w,
                    forall|i: int|
                        0 <= i < r@.len() ==> (#[trigger] r@[i]).0 as int == self@.x_of(i)
                            && r@[i].1 as int == self@.y_of(i) && r@[i].2 as int == self@.z_of(i)
                            && r@[i].3 == self@.cells[i],
                decreases h - y,
            {
                let mut x: usize = 0;
                while x < w
                    invariant
                        x <= w,
                        r@.len() == z * w * h + y * w + x,
                        forall|i: int|
                            0 <= i < r@.len() ==> (#[trigger] r@[i]).0 as int == self@.x_of(i)
                                && r@[i].1 as int == self@.y_of(i) && r@[i].2 as int == self@.z_of(
                                i,
                            ) && r@[i].3 == self@.cells[i],
                    decreases w - x,
                {
                    let i = self.get_index(x, y, z);
                    let c = self.cells[i];
                    proof {
                        lemma_coord_index_inverse(self@, x as int, y as int, z as int);
                    }
                    r.push((x, y, z, c));
                    x += 1;
                }
                proof {
                    assert((y + 1) * w == y * w + w) by (nonlinear_arith);
                }
                y += 1;
            }
            proof {
                assert((z + 1) * w * h == z * w * h + w * h) by (nonlinear_arith);
                assert(y * w == w * h) by (nonlinear_arith)
                    requires
                        y == h,
                ;
            }
            z += 1;
        }
        proof {
            assert(d * w * h == w * h * d) by (nonlinear_arith);
            assert forall|x: int, y: int, z: int| self@.in_bounds(x, y, z) implies (
            #[trigger] r@[self@.idx(x, y, z)]).0 as int == x && r@[self@.idx(x, y, z)].1 as int == y
                && r@[self@.idx(x, y, z)].2 as int == z && r@[self@.idx(x, y, z)].3 == self@.cell_at(
                x,
                y,
                z,
            ) by {
                lemma_coord_index_inverse(self@, x, y, z);
            }
        }
        r
    }

    /// Fixed dimensions of the grid: width, height and depth.
    pub fn dimensions(&self) -> (r: (usize, usize, usize))
        ensures
            r.0 as nat == self@.w,
            r.1 as nat == self@.h,
            r.2 as nat == self@.d,
    {
        (self.width, self.height, self.depth)
    }
}

/// The coordinate component `base + delta - 1` when it lies in
/// `0..limit`, nothing otherwise. `delta` is an offset component encoded
/// as `0..3`, standing for `-1`, `0` or `1`.
fn shift(base: usize, delta: usize, limit: usize) -> (r: Option<usize>)
    requires
        delta < 3,
    ensures
        match r {
            Some(v) => v == base + delta - 1 && 0 <= base + delta - 1 < limit,
            None => !(0 <= base + delta - 1 < limit),
        },
{
    if delta == 0 {
        if base == 0 {
            None
        } else if base - 1 < limit {
            Some(base - 1)
        } else {
            None
        }
    } else if delta == 1 {
        if base < limit {
            Some(base)
        } else {
            None
        }
    } else {
        if base == usize::MAX {
            None
        } else if base + 1 < limit {
            Some(base + 1)
        } else {
            None
        }
    }
}

} // verus!
