use learn_opengl::instancing::{instance_grid, range_step};

#[test]
fn range_step_even_steps() {
    assert_eq!(range_step(-10, 10, 2), vec![-10, -8, -6, -4, -2, 0, 2, 4, 6, 8]);
}

#[test]
fn range_step_uneven_end() {
    assert_eq!(range_step(0, 10, 3), vec![0, 3, 6, 9]);
    assert_eq!(range_step(0, 9, 3), vec![0, 3, 6]);
}

#[test]
fn range_step_empty() {
    assert!(range_step(5, 5, 1).is_empty());
    assert!(range_step(6, 5, 1).is_empty());
    assert!(range_step(5, 6, -1).is_empty());
    assert!(range_step(5, 5, 0).is_empty());
}

#[test]
fn range_step_negative_step() {
    assert_eq!(range_step(10, 0, -3), vec![10, 7, 4, 1]);
}

#[test]
fn range_step_stops_at_overflow() {
    assert_eq!(range_step(i32::MAX - 1, i32::MAX, 5), vec![i32::MAX - 1]);
    assert_eq!(range_step(i32::MIN + 1, i32::MIN, -5), vec![i32::MIN + 1]);
}

#[test]
fn instancing_grid_of_hundred_quads() {
    let cells = instance_grid(-10, 10, 2);
    assert_eq!(cells.len(), 100);
    assert_eq!(cells[0], (-10, -10));
    assert_eq!(cells[1], (-8, -10));
    assert_eq!(cells[9], (8, -10));
    assert_eq!(cells[10], (-10, -8));
    assert_eq!(cells[99], (8, 8));
    for (k, &(x, y)) in cells.iter().enumerate() {
        assert_eq!(x, -10 + 2 * (k as i32 % 10));
        assert_eq!(y, -10 + 2 * (k as i32 / 10));
    }
}

#[test]
fn instancing_translations_match_grid_offsets() {
    // the example shifts each cell by 0.1 after dividing by ten
    let cells = instance_grid(-10, 10, 2);
    let first = (cells[0].0 as f32 / 10.0 + 0.1, cells[0].1 as f32 / 10.0 + 0.1);
    assert!((first.0 - (-0.9)).abs() < 1e-6);
    assert!((first.1 - (-0.9)).abs() < 1e-6);
}

#[test]
fn empty_grid() {
    assert!(instance_grid(0, 0, 1).is_empty());
}
