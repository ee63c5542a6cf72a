use learn_opengl::asteroids::{
    asteroid_from_signed, asteroid_from_unsigned, reduce_signed_draw, reduce_unsigned_draw,
    sample_asteroids_signed, sample_asteroids_unsigned, AsteroidDraw, ROTATION_STEPS, SCALE_STEPS,
};

#[test]
fn signed_draws_reduce_euclidean() {
    assert_eq!(reduce_signed_draw(7, 500), 7);
    assert_eq!(reduce_signed_draw(-1, 500), 499);
    assert_eq!(reduce_signed_draw(-500, 500), 0);
    assert_eq!(reduce_signed_draw(1234, 500), 234);
    assert_eq!(reduce_signed_draw(i32::MIN, 500), 352);
    assert_eq!(reduce_signed_draw(i32::MAX, 360), (i32::MAX % 360) as u32);
}

#[test]
fn unsigned_draws_reduce() {
    assert_eq!(reduce_unsigned_draw(5001, 5000), 1);
    assert_eq!(reduce_unsigned_draw(u32::MAX, 20), 15);
}

#[test]
fn asteroid_from_signed_draws() {
    let draw = asteroid_from_signed((-3, 1000, 250, -1, 725), 500);
    assert_eq!(
        draw,
        AsteroidDraw { dx: 497, dy: 0, dz: 250, scale_step: 19, rotation_degrees: 5 }
    );
}

#[test]
fn asteroid_from_unsigned_draws() {
    let draw = asteroid_from_unsigned((12345, 4999, 5000, 41, 361), 5000);
    assert_eq!(
        draw,
        AsteroidDraw { dx: 2345, dy: 4999, dz: 0, scale_step: 1, rotation_degrees: 1 }
    );
}

fn in_range(draw: &AsteroidDraw, range: u32) -> bool {
    draw.dx < range
        && draw.dy < range
        && draw.dz < range
        && draw.scale_step < SCALE_STEPS
        && draw.rotation_degrees < ROTATION_STEPS
}

#[test]
fn signed_field_stays_in_range() {
    let field = sample_asteroids_signed(1000, 500);
    assert_eq!(field.len(), 1000);
    assert!(field.iter().all(|d| in_range(d, 500)));
    // a thousand random asteroids are not all the same
    assert!(field.iter().any(|d| *d != field[0]));
}

#[test]
fn unsigned_field_stays_in_range() {
    let field = sample_asteroids_unsigned(2000, 5000);
    assert_eq!(field.len(), 2000);
    assert!(field.iter().all(|d| in_range(d, 5000)));
    assert!(field.iter().any(|d| *d != field[0]));
}

#[test]
fn empty_field() {
    assert!(sample_asteroids_signed(0, 500).is_empty());
    assert!(sample_asteroids_unsigned(0, 1).is_empty());
}

#[test]
fn signed_draws_with_negative_modulus() {
    assert_eq!(reduce_signed_draw(7, -3), 7i32.rem_euclid(-3) as u32);
    assert_eq!(reduce_signed_draw(7, -3), 1);
    assert_eq!(reduce_signed_draw(-7, -3), 2);
    assert_eq!(reduce_signed_draw(i32::MIN, -7), i32::MIN.rem_euclid(-7) as u32);
}
