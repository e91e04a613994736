use vstd::prelude::*;
use crate::cell::Cell;
use crate::model::{
    GridModel, lemma_coord_index_inverse, lemma_step_cell_at, new_model,
};

verus! {

/// Writing a cell at an in-range coordinate and then reading the same
/// coordinate yields exactly the written cell.
pub proof fn lemma_set_then_get(g: GridModel, x: int, y: int, z: int, c: Cell)
    requires
        g.wf(),
        g.in_bounds(x, y, z),
    ensures
        g.set_cell(x, y, z, c).spec_get(x, y, z) == Some(c),
{
    lemma_coord_index_inverse(g, x, y, z);
}

/// A write touches only its own coordinate: every other in-range
/// coordinate reads as before.
pub proof fn lemma_set_preserves_others(
    g: GridModel,
    x: int,
    y: int,
    z: int,
    c: Cell,
    x2: int,
    y2: int,
    z2: int,
)
    requires
        g.wf(),
        g.in_bounds(x, y, z),
        g.in_bounds(x2, y2, z2),
        !(x2 == x && y2 == y && z2 == z),
    ensures
        g.set_cell(x, y, z, c).cell_at(x2, y2, z2) == g.cell_at(x2, y2, z2),
{
    lemma_coord_index_inverse(g, x, y, z);
    lemma_coord_index_inverse(g, x2, y2, z2);
}

/// Reading a coordinate with any component at or beyond its dimension
/// yields no cell.
pub proof fn lemma_get_out_of_range(g: GridModel, x: int, y: int, z: int)
    requires
        !g.in_bounds(x, y, z),
    ensures
        g.spec_get(x, y, z) is None,
{
}

/// Distinct in-range coordinates occupy distinct linear indices, so an
/// enumeration in storage order lists every coordinate combination
/// exactly once.
pub proof fn lemma_index_injective(
    g: GridModel,
    x1: int,
    y1: int,
    z1: int,
    x2: int,
    y2: int,
    z2: int,
)
    requires
        g.in_bounds(x1, y1, z1),
        g.in_bounds(x2, y2, z2),
        g.idx(x1, y1, z1) == g.idx(x2, y2, z2),
    ensures
        x1 == x2 && y1 == y2 && z1 == z2,
{
    lemma_coord_index_inverse(g, x1, y1, z1);
    lemma_coord_index_inverse(g, x2, y2, z2);
}

/// A cell all 26 of whose neighbors are in range and alive has neighbor
/// count exactly 26.
pub proof fn lemma_full_neighborhood(g: GridModel, x: int, y: int, z: int)
    requires
        forall|dx: int, dy: int, dz: int|
            -1 <= dx <= 1 && -1 <= dy <= 1 && -1 <= dz <= 1 && !(dx == 0 && dy == 0 && dz == 0)
                ==> #[trigger] g.alive_at(x + dx, y + dy, z + dz),
    ensures
        g.alive_neighbors(x, y, z) == 26,
{
    reveal_with_fuel(GridModel::alive_neighbors_upto, 28);
}

/// The corner cell at the origin of a grid with all dimensions at least 2
/// has exactly 7 in-range neighbors; when all of them are alive its
/// neighbor count is exactly 7.
pub proof fn lemma_corner_neighborhood(g: GridModel)
    requires
        g.w >= 2,
        g.h >= 2,
        g.d >= 2,
        forall|nx: int, ny: int, nz: int|
            0 <= nx <= 1 && 0 <= ny <= 1 && 0 <= nz <= 1 && !(nx == 0 && ny == 0 && nz == 0)
                ==> #[trigger] g.alive_at(nx, ny, nz),
    ensures
        g.alive_neighbors(0, 0, 0) == 7,
{
    reveal_with_fuel(GridModel::alive_neighbors_upto, 28);
}

/// A freshly built grid is well formed, has exactly the dimensions it was
/// built with, and every in-range coordinate empty.
pub proof fn lemma_new_dimensions(w: nat, h: nat, d: nat)
    ensures
        new_model(w, h, d).w == w,
        new_model(w, h, d).h == h,
        new_model(w, h, d).d == d,
        new_model(w, h, d).wf(),
        new_model(w, h, d).all_empty(),
{
    let g = new_model(w, h, d);
    assert forall|x: int, y: int, z: int| g.in_bounds(x, y, z) implies #[trigger] g.cell_at(
        x,
        y,
        z,
    ) is Empty by {
        lemma_coord_index_inverse(g, x, y, z);
    }
}

/// In a grid with every cell empty, every coordinate has zero alive
/// neighbors.
pub proof fn lemma_empty_no_neighbors(g: GridModel, x: int, y: int, z: int)
    requires
        g.all_empty(),
    ensures
        g.alive_neighbors(x, y, z) == 0,
{
    lemma_empty_upto(g, x, y, z, 27);
}

proof fn lemma_empty_upto(g: GridModel, x: int, y: int, z: int, k: int)
    requires
        g.all_empty(),
    ensures
        g.alive_neighbors_upto(x, y, z, k) == 0,
    decreases k,
{
    if k > 0 {
        lemma_empty_upto(g, x, y, z, k - 1);
        let (dx, dy, dz) = crate::model::delta_of(k - 1);
        assert(!g.alive_at(x + dx, y + dy, z + dz));
    }
}

/// One generation advance of an all-empty grid leaves it all empty: no
/// coordinate has the 6 or 7 alive neighbors the birth band asks for.
pub proof fn lemma_empty_step(g: GridModel)
    requires
        g.wf(),
        g.all_empty(),
    ensures
        g.step().wf(),
        g.step().all_empty(),
{
    assert forall|x: int, y: int, z: int| g.step().in_bounds(x, y, z) implies #[trigger] g.step()
        .cell_at(x, y, z) is Empty by {
        lemma_step_cell_at(g, x, y, z);
        lemma_empty_no_neighbors(g, x, y, z);
    }
}

/// An all-empty grid stays all empty after any number of generation
/// advances.
pub proof fn lemma_empty_stays_empty(g: GridModel, n: nat)
    requires
        g.wf(),
        g.all_empty(),
    ensures
        g.step_n(n).wf(),
        g.step_n(n).all_empty(),
    decreases n,
{
    if n > 0 {
        lemma_empty_stays_empty(g, (n - 1) as nat);
        lemma_empty_step(g.step_n((n - 1) as nat));
    }
}

} // verus!
