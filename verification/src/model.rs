use vstd::prelude::*;
use vstd::arithmetic::div_mod::lemma_fundamental_div_mod_converse;
use crate::cell::Cell;

verus! {

/// Mathematical model of a bounded three-dimensional grid: the three
/// dimensions and the flat sequence of cells, stored with `x` varying
/// fastest, then `y`, then `z`.
#[verifier::ext_equal]
pub struct GridModel {
    pub w: nat,
    pub h: nat,
    pub d: nat,
    pub cells: Seq<Cell>,
}

/// The neighbor offset with code `k`, for `k` in `0..27`: each component of
/// the triple ranges over `-1..=1`, with the first component varying
/// fastest. Code 13 is the center offset `(0, 0, 0)`.
pub open spec fn delta_of(k: int) -> (int, int, int) {
    (k % 3 - 1, (k / 3) % 3 - 1, k / 9 - 1)
}

impl GridModel {
    /// The backing sequence holds exactly one cell per coordinate.
    pub open spec fn wf(self) -> bool {
        self.cells.len() == self.w * self.h * self.d
    }

    /// All three components are strictly below their dimension.
    pub open spec fn in_bounds(self, x: int, y: int, z: int) -> bool {
        0 <= x < self.w && 0 <= y < self.h && 0 <= z < self.d
    }

    /// Linear index of a coordinate: `x` varies fastest, then `y`, then `z`.
    pub open spec fn idx(self, x: int, y: int, z: int) -> int {
        x + y * self.w + z * self.w * self.h
    }

    /// The `x` component of the coordinate stored at linear index `i`.
    pub open spec fn x_of(self, i: int) -> int {
        i % self.w as int
    }

    /// The `y` component of the coordinate stored at linear index `i`.
    pub open spec fn y_of(self, i: int) -> int {
        (i / self.w as int) % self.h as int
    }

    /// The `z` component of the coordinate stored at linear index `i`.
    pub open spec fn z_of(self, i: int) -> int {
        (i / self.w as int) / self.h as int
    }

    /// The cell stored at a coordinate.
    pub open spec fn cell_at(self, x: int, y: int, z: int) -> Cell {
        self.cells[self.idx(x, y, z)]
    }

    /// A bounds-checked read: the cell if the coordinate is in range,
    /// nothing otherwise.
    pub open spec fn spec_get(self, x: int, y: int, z: int) -> Option<Cell> {
        if self.in_bounds(x, y, z) {
            Some(self.cell_at(x, y, z))
        } else {
            None
        }
    }

    /// The grid with the cell at one coordinate replaced.
    pub open spec fn set_cell(self, x: int, y: int, z: int, c: Cell) -> GridModel {
        GridModel { cells: self.cells.update(self.idx(x, y, z), c), ..self }
    }

    /// Whether the coordinate is in range and holds an alive cell.
    pub open spec fn alive_at(self, x: int, y: int, z: int) -> bool {
        self.in_bounds(x, y, z) && self.cell_at(x, y, z) is Alive
    }

    /// Alive cells among the neighbors whose offset code is below `k`.
    /// Out-of-range neighbors are skipped: the grid has no wraparound.
    pub open spec fn alive_neighbors_upto(self, x: int, y: int, z: int, k: int) -> nat
        decreases k,
    {
        if k <= 0 {
            0
        } else {
            self.alive_neighbors_upto(x, y, z, k - 1) + if k - 1 != 13 && self.alive_at(
                x + delta_of(k - 1).0,
                y + delta_of(k - 1).1,
                z + delta_of(k - 1).2,
            ) {
                1nat
            } else {
                0nat
            }
        }
    }

    /// Alive cells among the up to 26 neighbors of a coordinate
    /// (26-connectivity: the surrounding 3x3x3 block minus the cell itself).
    pub open spec fn alive_neighbors(self, x: int, y: int, z: int) -> nat {
        self.alive_neighbors_upto(x, y, z, 27)
    }

    /// The generation rule: an alive cell survives with 5 to 7 alive
    /// neighbors, and an empty cell is born with 6 or 7; every other cell
    /// is empty in the next generation.
    pub open spec fn next_cell(self, x: int, y: int, z: int) -> Cell {
        let n = self.alive_neighbors(x, y, z);
        if self.cell_at(x, y, z) is Alive {
            if 5 <= n && n <= 7 {
                Cell::Alive
            } else {
                Cell::Empty
            }
        } else {
            if 6 <= n && n <= 7 {
                Cell::Alive
            } else {
                Cell::Empty
            }
        }
    }

    /// One whole-grid generation advance: every cell of the result is the
    /// rule applied to the previous generation at that cell's coordinate.
    pub open spec fn step(self) -> GridModel {
        GridModel {
            cells: Seq::new(
                self.cells.len(),
                |i: int| self.next_cell(self.x_of(i), self.y_of(i), self.z_of(i)),
            ),
            ..self
        }
    }

    /// `n` generation advances in a row.
    pub open spec fn step_n(self, n: nat) -> GridModel
        decreases n,
    {
        if n == 0 {
            self
        } else {
            self.step_n((n - 1) as nat).step()
        }
    }

    /// Every in-range coordinate holds an empty cell.
    pub open spec fn all_empty(self) -> bool {
        forall|x: int, y: int, z: int|
            self.in_bounds(x, y, z) ==> #[trigger] self.cell_at(x, y, z) is Empty
    }

    /// Total number of alive cells in the grid.
    pub open spec fn alive_count(self) -> nat {
        count_alive_seq(self.cells)
    }
}

/// Number of alive cells in a sequence.
pub open spec fn count_alive_seq(s: Seq<Cell>) -> nat
    decreases s.len(),
{
    if s.len() == 0 {
        0
    } else {
        count_alive_seq(s.drop_last()) + if s.last() is Alive {
            1nat
        } else {
            0nat
        }
    }
}

/// The model of a freshly constructed grid: the given dimensions, every
/// cell empty.
pub open spec fn new_model(w: nat, h: nat, d: nat) -> GridModel {
    GridModel { w, h, d, cells: Seq::new(w * h * d, |i: int| Cell::Empty) }
}

/// Bounds on the linear index of an in-range coordinate, together with the
/// sign facts on its partial products that overflow reasoning needs.
pub proof fn lemma_idx_bounds(w: int, h: int, d: int, x: int, y: int, z: int)
    by (nonlinear_arith)
    requires
        0 <= x < w,
        0 <= y < h,
        0 <= z < d,
    ensures
        0 <= y * w,
        0 <= z * w,
        z * w <= z * w * h,
        0 <= x + y * w + z * w * h < w * h * d,
{
}

/// The linear index of an in-range coordinate lies in range, and decoding
/// it recovers exactly that coordinate.
pub proof fn lemma_coord_index_inverse(g: GridModel, x: int, y: int, z: int)
    requires
        g.in_bounds(x, y, z),
    ensures
        0 <= g.idx(x, y, z) < g.w * g.h * g.d,
        g.x_of(g.idx(x, y, z)) == x,
        g.y_of(g.idx(x, y, z)) == y,
        g.z_of(g.idx(x, y, z)) == z,
{
    let w = g.w as int;
    let h = g.h as int;
    let d = g.d as int;
    let i = g.idx(x, y, z);
    lemma_idx_bounds(w, h, d, x, y, z);
    assert(x + y * w + z * w * h == (y + h * z) * w + x) by (nonlinear_arith);
    lemma_fundamental_div_mod_converse(i, w, y + h * z, x);
    assert(y + h * z == z * h + y) by (nonlinear_arith);
    lemma_fundamental_div_mod_converse(y + h * z, h, z, y);
}

/// After a generation advance, each in-range coordinate holds exactly what
/// the rule yields for it, and the dimensions and cell count are kept.
pub proof fn lemma_step_cell_at(g: GridModel, x: int, y: int, z: int)
    requires
        g.wf(),
        g.in_bounds(x, y, z),
    ensures
        g.step().wf(),
        g.step().cell_at(x, y, z) == g.next_cell(x, y, z),
{
    lemma_coord_index_inverse(g, x, y, z);
}

} // verus!
