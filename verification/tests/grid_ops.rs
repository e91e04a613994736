use grid3d::{Cell, Grid3D};

#[test]
fn new_dimensions_round_trip() {
    let g = Grid3D::new(4, 5, 6);
    assert_eq!(g.dimensions(), (4, 5, 6));
}

#[test]
fn new_grid_is_all_empty() {
    let g = Grid3D::new(3, 2, 4);
    assert_eq!(g.count_alive(), 0);
    for z in 0..4 {
        for y in 0..2 {
            for x in 0..3 {
                assert_eq!(g.get(x, y, z), Some(Cell::Empty));
            }
        }
    }
}

#[test]
fn set_then_get_returns_written_cell() {
    let mut g = Grid3D::new(4, 4, 4);
    for (x, y, z) in [(0, 0, 0), (3, 3, 3), (1, 2, 3), (2, 0, 1)] {
        assert!(g.set(x, y, z, Cell::Alive));
        assert_eq!(g.get(x, y, z), Some(Cell::Alive));
    }
}

#[test]
fn set_overwrites_previous_value() {
    let mut g = Grid3D::new(2, 2, 2);
    assert!(g.set(1, 1, 0, Cell::Alive));
    assert_eq!(g.get(1, 1, 0), Some(Cell::Alive));
    assert!(g.set(1, 1, 0, Cell::Empty));
    assert_eq!(g.get(1, 1, 0), Some(Cell::Empty));
}

#[test]
fn get_out_of_range_is_none() {
    let g = Grid3D::new(2, 3, 4);
    assert_eq!(g.get(2, 0, 0), None);
    assert_eq!(g.get(0, 3, 0), None);
    assert_eq!(g.get(0, 0, 4), None);
    assert_eq!(g.get(usize::MAX, 0, 0), None);
    assert_eq!(g.get(2, 3, 4), None);
}

#[test]
fn set_out_of_range_fails_without_mutating() {
    let mut g = Grid3D::new(2, 2, 2);
    assert!(g.set(0, 1, 1, Cell::Alive));
    assert!(!g.set(2, 0, 0, Cell::Alive));
    assert!(!g.set(0, 2, 0, Cell::Alive));
    assert!(!g.set(0, 0, 2, Cell::Alive));
    assert!(!g.set(usize::MAX, usize::MAX, usize::MAX, Cell::Alive));
    for z in 0..2 {
        for y in 0..2 {
            for x in 0..2 {
                let expected = if (x, y, z) == (0, 1, 1) { Cell::Alive } else { Cell::Empty };
                assert_eq!(g.get(x, y, z), Some(expected));
            }
        }
    }
    assert_eq!(g.count_alive(), 1);
}

#[test]
fn zero_dimension_grid_has_no_cells() {
    let mut g = Grid3D::new(0, 3, 3);
    assert_eq!(g.dimensions(), (0, 3, 3));
    assert_eq!(g.get(0, 0, 0), None);
    assert!(!g.set(0, 0, 0, Cell::Alive));
    assert_eq!(g.count_alive(), 0);
    assert_eq!(g.iter_cells().len(), 0);
    g.update();
    assert_eq!(g.count_alive(), 0);
}

#[test]
fn count_alive_totals_the_grid() {
    let mut g = Grid3D::new(3, 3, 3);
    assert_eq!(g.count_alive(), 0);
    g.set(0, 0, 0, Cell::Alive);
    g.set(1, 2, 0, Cell::Alive);
    g.set(2, 2, 2, Cell::Alive);
    assert_eq!(g.count_alive(), 3);
    g.set(1, 2, 0, Cell::Empty);
    assert_eq!(g.count_alive(), 2);
}

#[test]
fn iter_cells_is_in_storage_order() {
    let mut g = Grid3D::new(2, 3, 2);
    for z in 0..2 {
        for y in 0..3 {
            for x in 0..2 {
                if (x + y + z) % 2 == 0 {
                    g.set(x, y, z, Cell::Alive);
                }
            }
        }
    }
    let cells = g.iter_cells();
    assert_eq!(cells.len(), 2 * 3 * 2);
    for (i, &(x, y, z, c)) in cells.iter().enumerate() {
        assert_eq!(x, i % 2);
        assert_eq!(y, (i / 2) % 3);
        assert_eq!(z, i / 6);
        assert_eq!(Some(c), g.get(x, y, z));
    }
}

#[test]
fn iter_cells_covers_each_coordinate_once() {
    let g = Grid3D::new(3, 4, 2);
    let mut seen = [[[false; 2]; 4]; 3];
    let cells = g.iter_cells();
    assert_eq!(cells.len(), 3 * 4 * 2);
    for &(x, y, z, _) in cells.iter() {
        assert!(x < 3 && y < 4 && z < 2);
        assert!(!seen[x][y][z]);
        seen[x][y][z] = true;
    }
    for plane in seen.iter() {
        for row in plane.iter() {
            for &cell_seen in row.iter() {
                assert!(cell_seen);
            }
        }
    }
}
