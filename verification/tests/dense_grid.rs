use life_core::cell::Cell;
use life_core::color::{Color, ColorSource};
use life_core::dense::Grid;
use life_core::sparse::CellSet;

fn palette1() -> Vec<Color> {
    vec![Color::rgb(200, 100, 50)]
}

fn grid_coords(g: &Grid) -> Vec<(i64, i64)> {
    let mut v: Vec<(i64, i64)> = g.live_cells().iter().map(|c| (c.x, c.y)).collect();
    v.sort();
    v
}

#[test]
fn blinker_wraps_across_the_seam() {
    // a horizontal blinker crossing the vertical seam of a 5 by 5 torus:
    // {(4,2),(0,2),(1,2)} must rotate into the column {(0,1),(0,2),(0,3)}
    let mut g = Grid::new(5, 5);
    let col = Color::rgb(1, 2, 3);
    assert!(g.insert_new(4, 2, col));
    assert!(g.insert_new(0, 2, col));
    assert!(g.insert_new(1, 2, col));
    let mut colors = ColorSource::cycling(palette1());
    let next = g.step(&mut colors);
    assert_eq!(grid_coords(&next), vec![(0, 1), (0, 2), (0, 3)]);
    // and back again one step later
    let next2 = next.step(&mut colors);
    assert_eq!(grid_coords(&next2), vec![(0, 2), (1, 2), (4, 2)]);
}

#[test]
fn survivor_keeps_color_on_the_torus() {
    let mut g = Grid::new(6, 6);
    let a = Color::rgb(10, 0, 0);
    let b = Color::rgb(0, 10, 0);
    let c = Color::rgb(0, 0, 10);
    let d = Color::rgb(5, 5, 5);
    assert!(g.insert_new(1, 1, a));
    assert!(g.insert_new(2, 1, b));
    assert!(g.insert_new(1, 2, c));
    assert!(g.insert_new(2, 2, d));
    let mut colors = ColorSource::cycling(palette1());
    let next = g.step(&mut colors);
    assert_eq!(grid_coords(&next), vec![(1, 1), (1, 2), (2, 1), (2, 2)]);
    for cell in next.live_cells() {
        let expected = match (cell.x, cell.y) {
            (1, 1) => a,
            (2, 1) => b,
            (1, 2) => c,
            (2, 2) => d,
            other => panic!("unexpected cell at {:?}", other),
        };
        assert_eq!(cell.color, expected);
    }
}

#[test]
fn insert_checks_bounds_and_absence() {
    let mut g = Grid::new(4, 4);
    let col = Color::rgb(7, 7, 7);
    assert!(!g.insert_new(-1, 0, col));
    assert!(!g.insert_new(0, 4, col));
    assert!(g.insert_new(3, 3, col));
    assert!(!g.insert_new(3, 3, Color::rgb(1, 1, 1)));
    assert_eq!(grid_coords(&g), vec![(3, 3)]);
    assert_eq!(g.live_cells()[0].color, col);
}

#[test]
fn zero_sized_grid_steps_to_itself() {
    let g = Grid::new(0, 0);
    let mut colors = ColorSource::cycling(palette1());
    let next = g.step(&mut colors);
    assert_eq!(next.live_cells().len(), 0);
    assert_eq!(next.width_len(), 0);
    assert_eq!(next.height_len(), 0);
}

#[test]
fn sparse_and_dense_agree_away_from_the_boundary() {
    // the same five-cell population, placed strictly inside a 10 by 10 grid:
    // one sparse step and one dense step must produce the same membership
    let coords = [(4i64, 3i64), (5, 3), (3, 4), (4, 4), (5, 4)];
    let mut sparse = CellSet::new();
    let mut grid = Grid::new(10, 10);
    let col = Color::rgb(9, 9, 9);
    for &(x, y) in &coords {
        assert!(sparse.insert_new(Cell::new(x, y, col)));
        assert!(grid.insert_new(x, y, col));
    }
    let mut colors_a = ColorSource::cycling(palette1());
    let mut colors_b = ColorSource::cycling(palette1());
    let next_sparse = sparse.step(&mut colors_a);
    let next_dense = grid.step(&mut colors_b);
    let mut sparse_coords: Vec<(i64, i64)> =
        next_sparse.cells().iter().map(|c| (c.x, c.y)).collect();
    sparse_coords.sort();
    assert_eq!(sparse_coords, grid_coords(&next_dense));
}
