use life_core::cell::Cell;
use life_core::color::{Color, ColorSource};
use life_core::label::age_label;
use life_core::sparse::CellSet;
use life_core::world::{World, INITIAL_CELLS, INITIAL_EXTENT};

fn palette2() -> Vec<Color> {
    vec![Color::rgb(11, 12, 13), Color::rgb(21, 22, 23)]
}

fn world_coords(w: &World) -> Vec<(i64, i64)> {
    let mut v: Vec<(i64, i64)> = w.live_cells().iter().map(|c| (c.x, c.y)).collect();
    v.sort();
    v
}

#[test]
fn fresh_world_holds_the_initial_population() {
    let w = World::new();
    let cells = w.live_cells();
    assert_eq!(cells.len(), INITIAL_CELLS);
    assert_eq!(w.live_cell_count(), INITIAL_CELLS);
    assert_eq!(w.generation(), 0);
    let extent = INITIAL_EXTENT as i64;
    for c in &cells {
        assert!(0 <= c.x && c.x < extent);
        assert!(0 <= c.y && c.y < extent);
        assert_eq!(c.age, 0);
    }
    // distinct coordinates
    let mut coords: Vec<(i64, i64)> = cells.iter().map(|c| (c.x, c.y)).collect();
    coords.sort();
    coords.dedup();
    assert_eq!(coords.len(), INITIAL_CELLS);
}

#[test]
fn tick_advances_the_generation_by_one() {
    let mut w = World::new();
    assert!(w.tick());
    assert_eq!(w.generation(), 1);
    assert!(w.tick());
    assert_eq!(w.generation(), 2);
}

#[test]
fn reset_empties_and_rewinds() {
    let mut w = World::new();
    assert!(w.tick());
    w.reset();
    assert_eq!(w.generation(), 0);
    assert_eq!(w.live_cell_count(), 0);
}

#[test]
fn world_step_matches_the_rule() {
    let mut s = CellSet::new();
    let col = Color::rgb(1, 1, 1);
    for &(x, y) in &[(1i64, 0i64), (2, 0), (0, 1), (1, 1), (2, 1)] {
        assert!(s.insert_new(Cell::new(x, y, col)));
    }
    let mut w = World::with_population(s, palette2());
    assert!(w.tick());
    assert_eq!(world_coords(&w), vec![(0, 0), (0, 1), (1, 2), (2, 0), (2, 1)]);
}

#[test]
fn square_brush_inserts_near_the_target_only() {
    let mut s = CellSet::new();
    let kept = Color::rgb(99, 98, 97);
    assert!(s.insert_new(Cell::new(100, 100, kept)));
    let mut w = World::with_population(s, palette2());
    assert!(w.spawn_square(100, 100, 30));
    let cells = w.live_cells();
    assert!(cells.len() <= 31);
    for c in &cells {
        assert!((c.x - 100).abs() <= 5, "x strays: {}", c.x);
        assert!((c.y - 100).abs() <= 5, "y strays: {}", c.y);
    }
    // the pre-existing cell was never overwritten
    let survivor = cells.iter().find(|c| (c.x, c.y) == (100, 100)).unwrap();
    assert_eq!(survivor.color, kept);
    // a target at the i64 rim is refused and changes nothing
    let before = world_coords(&w);
    assert!(!w.spawn_square(i64::MAX, 0, 3));
    assert_eq!(world_coords(&w), before);
}

#[test]
fn offset_brush_inserts_exactly_the_offsets() {
    let mut w = World::with_population(CellSet::new(), palette2());
    // a duplicate offset is absorbed by insert-if-absent
    let offsets = vec![(0i64, 0i64), (1, 0), (0, 1), (1, 0), (-5, 5)];
    assert!(w.spawn_offsets(10, 20, &offsets));
    assert_eq!(world_coords(&w), vec![(5, 25), (10, 20), (10, 21), (11, 20)]);
    // an offset outside the brush square is refused wholesale
    let before = world_coords(&w);
    assert!(!w.spawn_offsets(10, 20, &vec![(6, 0)]));
    assert_eq!(world_coords(&w), before);
}

#[test]
fn cycling_source_hands_colors_out_in_order() {
    let pal = palette2();
    let mut colors = ColorSource::cycling(pal.clone());
    assert_eq!(colors.pick(), pal[0]);
    assert_eq!(colors.pick(), pal[1]);
    assert_eq!(colors.pick(), pal[0]);
}

#[test]
fn randomized_source_stays_in_the_palette() {
    let pal = palette2();
    let mut colors = ColorSource::randomized(pal.clone());
    for _ in 0..50 {
        let c = colors.pick();
        assert!(pal.contains(&c));
    }
}

#[test]
fn age_labels_are_plain_decimal() {
    assert_eq!(age_label(0), b"0".to_vec());
    assert_eq!(age_label(7), b"7".to_vec());
    assert_eq!(age_label(10), b"10".to_vec());
    assert_eq!(age_label(350), b"350".to_vec());
    assert_eq!(age_label(u64::MAX), b"18446744073709551615".to_vec());
}

#[test]
fn pan_and_mapping_through_the_facade() {
    let mut w = World::with_population(CellSet::new(), palette2());
    assert!(w.pan(25, -25));
    // a window too small for the resolution refuses the inverse mapping
    assert_eq!(w.screen_to_world(10, 10, 0, 12), None);
    let (cx, cy) = w.screen_to_world(25, -25, 16, 12).unwrap();
    assert_eq!((cx, cy), (0, 0));
    let (sx, sy, _, _) = w.cell_rect(0, 0, 16, 12).unwrap();
    assert_eq!((sx, sy), (25, -25));
}

#[test]
fn square_brush_on_empty_ground_inserts() {
    // every draw lands in the 11 by 11 square; with nothing live there, the
    // first draw must insert, so a brush stroke is never a no-op
    let mut w = World::with_population(CellSet::new(), palette2());
    assert!(w.spawn_square(0, 0, 10));
    assert!(w.live_cell_count() >= 1);
    let mut d = World::new_dense(30, 30, palette2());
    assert!(d.spawn_square(15, 15, 10));
    assert!(d.live_cell_count() >= 1);
}

#[test]
fn offset_brush_on_the_torus_is_exact() {
    let mut w = World::new_dense(8, 8, palette2());
    // one duplicate, one landing off the grid: the duplicate is absorbed,
    // the off-grid offset is dropped, nothing wraps
    let offsets = vec![(0i64, 0i64), (1, 1), (0, 0), (-3, 0)];
    assert!(w.spawn_offsets(2, 2, &offsets));
    assert_eq!(world_coords(&w), vec![(2, 2), (3, 3)]);
    assert_eq!(w.live_cell_count(), 2);
    // every inserted color is a palette entry
    for c in w.live_cells() {
        assert!(palette2().contains(&c.color));
    }
}

#[test]
fn fresh_world_draws_from_the_default_palette() {
    let pal = life_core::color::default_palette();
    let w = World::new();
    for c in w.live_cells() {
        assert!(pal.contains(&c.color));
    }
}
