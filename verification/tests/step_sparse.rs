use life_core::cell::Cell;
use life_core::color::{Color, ColorSource};
use life_core::sparse::CellSet;

fn palette3() -> Vec<Color> {
    vec![Color::rgb(10, 20, 30), Color::rgb(40, 50, 60), Color::rgb(70, 80, 90)]
}

fn build(coords: &[(i64, i64)]) -> CellSet {
    let mut s = CellSet::new();
    let mut colors = ColorSource::cycling(palette3());
    for &(x, y) in coords {
        let c = colors.pick();
        assert!(s.insert_new(Cell::new(x, y, c)));
    }
    s
}

fn coords_of(s: &CellSet) -> Vec<(i64, i64)> {
    let mut v: Vec<(i64, i64)> = s.cells().iter().map(|c| (c.x, c.y)).collect();
    v.sort();
    v
}

#[test]
fn block_is_still_life() {
    let s = build(&[(0, 0), (1, 0), (0, 1), (1, 1)]);
    let mut colors = ColorSource::cycling(palette3());
    let next = s.step(&mut colors);
    assert_eq!(coords_of(&next), vec![(0, 0), (0, 1), (1, 0), (1, 1)]);
    // every member survived: age went from 0 to 1, color kept
    for c in next.cells() {
        assert_eq!(c.age, 1);
    }
    // a second step leaves it in place again
    let next2 = next.step(&mut colors);
    assert_eq!(coords_of(&next2), vec![(0, 0), (0, 1), (1, 0), (1, 1)]);
    for c in next2.cells() {
        assert_eq!(c.age, 2);
    }
}

#[test]
fn glider_phase_regression() {
    // the fixed regression vector: one step of this five-cell population,
    // hand-computed from the neighbor rule
    let s = build(&[(1, 0), (2, 0), (0, 1), (1, 1), (2, 1)]);
    let mut colors = ColorSource::cycling(palette3());
    let next = s.step(&mut colors);
    assert_eq!(coords_of(&next), vec![(0, 0), (0, 1), (1, 2), (2, 0), (2, 1)]);
    // survivors (2,0), (0,1), (2,1) aged to 1; births (0,0), (1,2) at age 0
    for c in next.cells() {
        match (c.x, c.y) {
            (2, 0) | (0, 1) | (2, 1) => assert_eq!(c.age, 1),
            (0, 0) | (1, 2) => assert_eq!(c.age, 0),
            other => panic!("unexpected cell at {:?}", other),
        }
    }
}

#[test]
fn birth_needs_exactly_three_neighbors() {
    // an L of three cells: the corner coordinate (1,1) sees all three and is
    // born; each live cell sees the other two and survives
    let s = build(&[(0, 0), (1, 0), (0, 1)]);
    let mut colors = ColorSource::cycling(palette3());
    let next = s.step(&mut colors);
    assert_eq!(coords_of(&next), vec![(0, 0), (0, 1), (1, 0), (1, 1)]);
    for c in next.cells() {
        if (c.x, c.y) == (1, 1) {
            assert_eq!(c.age, 0);
        } else {
            assert_eq!(c.age, 1);
        }
    }
}

#[test]
fn survivor_keeps_its_color() {
    let pal = vec![Color::rgb(1, 1, 1), Color::rgb(2, 2, 2), Color::rgb(3, 3, 3)];
    let mut s = CellSet::new();
    // assign a distinct, known color to each of the three cells
    assert!(s.insert_new(Cell::new(0, 0, Color::rgb(1, 1, 1))));
    assert!(s.insert_new(Cell::new(1, 0, Color::rgb(2, 2, 2))));
    assert!(s.insert_new(Cell::new(0, 1, Color::rgb(3, 3, 3))));
    let mut colors = ColorSource::cycling(pal);
    let next = s.step(&mut colors);
    for c in next.cells() {
        match (c.x, c.y) {
            (0, 0) => assert_eq!(c.color, Color::rgb(1, 1, 1)),
            (1, 0) => assert_eq!(c.color, Color::rgb(2, 2, 2)),
            (0, 1) => assert_eq!(c.color, Color::rgb(3, 3, 3)),
            (1, 1) => assert_eq!(c.age, 0),
            other => panic!("unexpected cell at {:?}", other),
        }
    }
}

#[test]
fn lonely_and_crowded_cells_die() {
    // a single cell has no neighbors and dies
    let s = build(&[(5, 5)]);
    let mut colors = ColorSource::cycling(palette3());
    let next = s.step(&mut colors);
    assert!(!next.has_cell(5, 5));
    // the center of a plus sign has 4 neighbors and dies
    let plus = build(&[(0, 0), (1, 0), (-1, 0), (0, 1), (0, -1)]);
    let next = plus.step(&mut colors);
    assert!(!next.has_cell(0, 0));
}

#[test]
fn empty_population_stays_empty() {
    let mut s = CellSet::new();
    let mut colors = ColorSource::cycling(palette3());
    for _ in 0..5 {
        s = s.step(&mut colors);
        assert_eq!(s.len(), 0);
    }
}

#[test]
fn step_membership_is_deterministic() {
    // two separate runs over the same snapshot agree cell for cell
    let a = build(&[(1, 0), (2, 0), (0, 1), (1, 1), (2, 1)]);
    let b = build(&[(1, 0), (2, 0), (0, 1), (1, 1), (2, 1)]);
    let mut colors_a = ColorSource::cycling(palette3());
    let mut colors_b = ColorSource::cycling(palette3());
    let na = a.step(&mut colors_a);
    let nb = b.step(&mut colors_b);
    assert_eq!(coords_of(&na), coords_of(&nb));
    let mut ages_a: Vec<(i64, i64, u64)> = na.cells().iter().map(|c| (c.x, c.y, c.age)).collect();
    let mut ages_b: Vec<(i64, i64, u64)> = nb.cells().iter().map(|c| (c.x, c.y, c.age)).collect();
    ages_a.sort();
    ages_b.sort();
    assert_eq!(ages_a, ages_b);
}

#[test]
fn locality_of_one_step() {
    // no coordinate of the next generation is farther than Chebyshev
    // distance 1 from every current member
    let members = [(1i64, 0i64), (2, 0), (0, 1), (1, 1), (2, 1)];
    let s = build(&members);
    let mut colors = ColorSource::cycling(palette3());
    let next = s.step(&mut colors);
    for c in next.cells() {
        let close = members
            .iter()
            .any(|&(mx, my)| (c.x - mx).abs() <= 1 && (c.y - my).abs() <= 1);
        assert!(close, "cell at ({}, {}) is not near the old population", c.x, c.y);
    }
}

#[test]
fn insert_is_absent_only() {
    let mut s = CellSet::new();
    assert!(s.insert_new(Cell::new(3, 4, Color::rgb(9, 9, 9))));
    assert!(!s.insert_new(Cell::new(3, 4, Color::rgb(8, 8, 8))));
    assert_eq!(s.len(), 1);
    assert_eq!(s.cells()[0].color, Color::rgb(9, 9, 9));
}

#[test]
fn update_applies_the_survival_rule() {
    let c = Cell::new(4, -2, Color::rgb(1, 2, 3));
    assert!(c.update(0).is_none());
    assert!(c.update(1).is_none());
    let s2 = c.update(2).unwrap();
    assert_eq!((s2.x, s2.y, s2.age, s2.color), (4, -2, 1, Color::rgb(1, 2, 3)));
    let s3 = c.update(3).unwrap();
    assert_eq!(s3.age, 1);
    assert!(c.update(4).is_none());
    assert!(c.update(8).is_none());
}
