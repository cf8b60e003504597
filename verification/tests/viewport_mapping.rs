use life_core::viewport::{floor_div, DragState, Viewport};

#[test]
fn cell_size_is_floor_of_window_over_resolution() {
    assert_eq!(Viewport::cell_size(800, 600), (16, 12));
    assert_eq!(Viewport::cell_size(805, 649), (16, 12));
    // a window narrower than the resolution yields 0: the caller must treat
    // the frame as unrenderable instead of dividing by it
    assert_eq!(Viewport::cell_size(49, 600), (0, 12));
    assert_eq!(Viewport::cell_size(0, 0), (0, 0));
}

#[test]
fn floor_div_rounds_toward_negative_infinity() {
    assert_eq!(floor_div(7, 2), 3);
    assert_eq!(floor_div(-7, 2), -4);
    assert_eq!(floor_div(-8, 2), -4);
    assert_eq!(floor_div(-1, 16), -1);
    assert_eq!(floor_div(0, 16), 0);
    assert_eq!(floor_div(i64::MIN, 1), i64::MIN);
    assert_eq!(floor_div(i64::MIN, i64::MAX), -2);
}

#[test]
fn forward_then_inverse_recovers_the_cell() {
    let mut v = Viewport::new();
    v.set_offset(-37, 23);
    let (sx, sy, w, h) = v.cell_rect(-3, 7, 16, 12);
    assert_eq!((w, h), (16, 12));
    assert_eq!((sx, sy), (-3 * 16 - 37, 7 * 12 + 23));
    let (cx, cy) = v.screen_to_world(sx, sy, 16, 12);
    assert_eq!((cx, cy), (-3, 7));
}

#[test]
fn negative_pixels_map_without_off_by_one() {
    let v = Viewport::new();
    // truncation toward zero would put the pixel just left of the origin
    // into column 0; floor puts it into column -1
    let (cx, cy) = v.screen_to_world(-5, -1, 16, 12);
    assert_eq!((cx, cy), (-1, -1));
    let (cx, _) = v.screen_to_world(15, 0, 16, 12);
    assert_eq!(cx, 0);
    let (cx, _) = v.screen_to_world(16, 0, 16, 12);
    assert_eq!(cx, 1);
}

#[test]
fn drag_gesture_accumulates_motion() {
    let mut v = Viewport::new();
    // motion while idle is a no-op
    assert!(v.drag_to(100, 100));
    assert_eq!((v.offset_x, v.offset_y), (0, 0));
    // press, move twice, release
    v.begin_drag(10, 10);
    assert!(matches!(v.drag, DragState::Dragging { last_x: 10, last_y: 10 }));
    assert!(v.drag_to(15, 12));
    assert_eq!((v.offset_x, v.offset_y), (5, 2));
    assert!(v.drag_to(10, 10));
    assert_eq!((v.offset_x, v.offset_y), (0, 0));
    v.end_drag();
    assert!(matches!(v.drag, DragState::Idle));
    // motion after release changes nothing
    assert!(v.drag_to(-50, -50));
    assert_eq!((v.offset_x, v.offset_y), (0, 0));
    // releasing while idle is a no-op
    v.end_drag();
    assert!(matches!(v.drag, DragState::Idle));
}

#[test]
fn pan_shifts_by_fixed_steps() {
    let mut v = Viewport::new();
    assert!(v.pan(25, 0));
    assert!(v.pan(0, -25));
    assert_eq!((v.offset_x, v.offset_y), (25, -25));
    // a pan that would overflow is refused and changes nothing
    v.set_offset(i64::MAX, 0);
    assert!(!v.pan(1, 0));
    assert_eq!((v.offset_x, v.offset_y), (i64::MAX, 0));
}
