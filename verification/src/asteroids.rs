use vstd::prelude::*;

verus! {

/// Number of scale steps an asteroid can get (scales `0.05 + k / 100`).
pub const SCALE_STEPS: u32 = 20;

/// Number of whole-degree rotation angles an asteroid can get.
pub const ROTATION_STEPS: u32 = 360;

/// The random integer choices behind one asteroid of the field. The
/// displacements are in hundredths of a unit and are shifted by the field's
/// offset when the transform is built; the scale step `s` stands for the
/// scale `0.05 + s / 100`; the rotation is in degrees.
#[derive(Clone, Copy, Debug, PartialEq, Eq, Structural)]
pub struct AsteroidDraw {
    pub dx: u32,
    pub dy: u32,
    pub dz: u32,
    pub scale_step: u32,
    pub rotation_degrees: u32,
}

/// `draw` lies in the ranges that a field with displacement range
/// `displacement_range` allows.
pub open spec fn draw_in_range(draw: AsteroidDraw, displacement_range: int) -> bool {
    &&& draw.dx < displacement_range
    &&& draw.dy < displacement_range
    &&& draw.dz < displacement_range
    &&& draw.scale_step < SCALE_STEPS
    &&& draw.rotation_degrees < ROTATION_STEPS
}

/// Draws a uniformly random `i32`.
///
/// Calls `rand::random::<i32>()`, which samples `rand::thread_rng()` (an
/// entropy-seeded generator of this thread). Nothing is stated of the
/// value: it depends on the generator's state.
#[verifier::external_body]
fn random_i32() -> (value: i32) {
    rand::random::<i32>()
}

/// Draws a uniformly random `u32`.
///
/// Calls `rand::random::<u32>()`, which samples `rand::thread_rng()`.
/// Nothing is stated of the value: it depends on the generator's state.
#[verifier::external_body]
fn random_u32() -> (value: u32) {
    rand::random::<u32>()
}

/// The Euclidean remainder of a signed raw draw, as `i32::rem_euclid`
/// computes it: always in `0..|modulus|`. The modulus may be negative;
/// zero, and `i32::MIN` by `-1` (whose remainder overflows), are left out.
pub fn reduce_signed_draw(raw: i32, modulus: i32) -> (value: u32)
    requires
        modulus != 0,
        !(raw == i32::MIN && modulus == -1),
    ensures
        value == raw as int % modulus as int,
        value < (if modulus < 0 { -modulus } else { modulus as int }),
{
    match raw.checked_rem_euclid(modulus) {
        Some(r) => r as u32,
        None => 0,
    }
}

/// The remainder of an unsigned raw draw: in `0..modulus`.
pub fn reduce_unsigned_draw(raw: u32, modulus: u32) -> (value: u32)
    requires
        modulus > 0,
    ensures
        value == raw % modulus,
        value < modulus,
{
    raw % modulus
}

/// The asteroid that five signed raw draws stand for, taken in the order
/// x, y and z displacement, scale, rotation, each reduced with
/// `rem_euclid` to its range.
pub fn asteroid_from_signed(raw: (i32, i32, i32, i32, i32), displacement_range: i32) -> (draw:
    AsteroidDraw)
    requires
        displacement_range > 0,
    ensures
        draw.dx == raw.0 as int % displacement_range as int,
        draw.dy == raw.1 as int % displacement_range as int,
        draw.dz == raw.2 as int % displacement_range as int,
        draw.scale_step == raw.3 as int % SCALE_STEPS as int,
        draw.rotation_degrees == raw.4 as int % ROTATION_STEPS as int,
        draw_in_range(draw, displacement_range as int),
{
    AsteroidDraw {
        dx: reduce_signed_draw(raw.0, displacement_range),
        dy: reduce_signed_draw(raw.1, displacement_range),
        dz: reduce_signed_draw(raw.2, displacement_range),
        scale_step: reduce_signed_draw(raw.3, 20),
        rotation_degrees: reduce_signed_draw(raw.4, 360),
    }
}

/// The asteroid that five unsigned raw draws stand for, in the same order,
/// each reduced with `%` to its range.
pub fn asteroid_from_unsigned(raw: (u32, u32, u32, u32, u32), displacement_range: u32) -> (draw:
    AsteroidDraw)
    requires
        displacement_range > 0,
    ensures
        draw.dx == raw.0 % displacement_range,
        draw.dy == raw.1 % displacement_range,
        draw.dz == raw.2 % displacement_range,
        draw.scale_step == raw.3 % SCALE_STEPS,
        draw.rotation_degrees == raw.4 % ROTATION_STEPS,
        draw_in_range(draw, displacement_range as int),
{
    AsteroidDraw {
        dx: reduce_unsigned_draw(raw.0, displacement_range),
        dy: reduce_unsigned_draw(raw.1, displacement_range),
        dz: reduce_unsigned_draw(raw.2, displacement_range),
        scale_step: reduce_unsigned_draw(raw.3, SCALE_STEPS),
        rotation_degrees: reduce_unsigned_draw(raw.4, ROTATION_STEPS),
    }
}

/// The asteroid field that signed raw draws stand for, five draws per
/// asteroid: asteroid `i` takes its x, y and z displacement, its scale step
/// and its rotation from draws `5i` to `5i + 4`, each reduced with
/// `rem_euclid` to its range.
pub fn asteroids_from_signed_draws(draws: &Vec<i32>, displacement_range: i32) -> (field: Vec<
    AsteroidDraw,
>)
    requires
        displacement_range > 0,
        draws@.len() % 5 == 0,
    ensures
        field@.len() == draws@.len() / 5,
        forall|i: int|
            0 <= i < field@.len() ==> {
                &&& #[trigger] field@[i].dx == draws@[5 * i] as int % displacement_range as int
                &&& field@[i].dy == draws@[5 * i + 1] as int % displacement_range as int
                &&& field@[i].dz == draws@[5 * i + 2] as int % displacement_range as int
                &&& field@[i].scale_step == draws@[5 * i + 3] as int % SCALE_STEPS as int
                &&& field@[i].rotation_degrees == draws@[5 * i + 4] as int % ROTATION_STEPS as int
            },
{
    let n = draws.len();
    let count = n / 5;
    let mut field: Vec<AsteroidDraw> = Vec::with_capacity(count);
    let mut i: usize = 0;
    while i < count
        invariant
            n == draws@.len(),
            count == draws@.len() / 5,
            draws@.len() % 5 == 0,
            displacement_range > 0,
            i <= count,
            field@.len() == i,
            forall|k: int|
                0 <= k < i ==> {
                    &&& #[trigger] field@[k].dx == draws@[5 * k] as int % displacement_range as int
                    &&& field@[k].dy == draws@[5 * k + 1] as int % displacement_range as int
                    &&& field@[k].dz == draws@[5 * k + 2] as int % displacement_range as int
                    &&& field@[k].scale_step == draws@[5 * k + 3] as int % SCALE_STEPS as int
                    &&& field@[k].rotation_degrees == draws@[5 * k + 4] as int % ROTATION_STEPS as int
                },
        decreases count - i,
    {
        assert(5 * i + 4 < n) by (nonlinear_arith)
            requires
                i < count,
                count == n / 5,
                n % 5 == 0,
        ;
        let b = 5 * i;
        let raw = (draws[b], draws[b + 1], draws[b + 2], draws[b + 3], draws[b + 4]);
        field.push(asteroid_from_signed(raw, displacement_range));
        i = i + 1;
    }
    field
}

/// The asteroid field that unsigned raw draws stand for, five draws per
/// asteroid: asteroid `i` takes its x, y and z displacement, its scale step
/// and its rotation from draws `5i` to `5i + 4`, each reduced with `%` to
/// its range.
pub fn asteroids_from_unsigned_draws(draws: &Vec<u32>, displacement_range: u32) -> (field: Vec<
    AsteroidDraw,
>)
    requires
        displacement_range > 0,
        draws@.len() % 5 == 0,
    ensures
        field@.len() == draws@.len() / 5,
        forall|i: int|
            0 <= i < field@.len() ==> {
                &&& #[trigger] field@[i].dx == draws@[5 * i] % displacement_range
                &&& field@[i].dy == draws@[5 * i + 1] % displacement_range
                &&& field@[i].dz == draws@[5 * i + 2] % displacement_range
                &&& field@[i].scale_step == draws@[5 * i + 3] % SCALE_STEPS
                &&& field@[i].rotation_degrees == draws@[5 * i + 4] % ROTATION_STEPS
            },
{
    let n = draws.len();
    let count = n / 5;
    let mut field: Vec<AsteroidDraw> = Vec::with_capacity(count);
    let mut i: usize = 0;
    while i < count
        invariant
            n == draws@.len(),
            count == draws@.len() / 5,
            draws@.len() % 5 == 0,
            displacement_range > 0,
            i <= count,
            field@.len() == i,
            forall|k: int|
                0 <= k < i ==> {
                    &&& #[trigger] field@[k].dx == draws@[5 * k] % displacement_range
                    &&& field@[k].dy == draws@[5 * k + 1] % displacement_range
                    &&& field@[k].dz == draws@[5 * k + 2] % displacement_range
                    &&& field@[k].scale_step == draws@[5 * k + 3] % SCALE_STEPS
                    &&& field@[k].rotation_degrees == draws@[5 * k + 4] % ROTATION_STEPS
                },
        decreases count - i,
    {
        assert(5 * i + 4 < n) by (nonlinear_arith)
            requires
                i < count,
                count == n / 5,
                n % 5 == 0,
        ;
        let b = 5 * i;
        let raw = (draws[b], draws[b + 1], draws[b + 2], draws[b + 3], draws[b + 4]);
        field.push(asteroid_from_unsigned(raw, displacement_range));
        i = i + 1;
    }
    field
}

/// Samples `amount` asteroids from signed random draws (the field of the
/// non-instanced asteroid example): five fresh draws per asteroid, in the
/// order x, y, z, scale, rotation, turned into the field by
/// `asteroids_from_signed_draws`. Whatever the generator gives, every
/// asteroid lies in the field's ranges.
pub fn sample_asteroids_signed(amount: usize, displacement_range: i32) -> (field: Vec<AsteroidDraw>)
    requires
        displacement_range > 0,
    ensures
        field@.len() == amount,
        forall|i: int| 0 <= i < amount ==> draw_in_range(#[trigger] field@[i], displacement_range as int),
{
    let mut draws: Vec<i32> = Vec::new();
    let mut i: usize = 0;
    while i < amount
        invariant
            i <= amount,
            draws@.len() == 5 * i,
        decreases amount - i,
    {
        draws.push(random_i32());
        draws.push(random_i32());
        draws.push(random_i32());
        draws.push(random_i32());
        draws.push(random_i32());
        i = i + 1;
    }
    assert(draws@.len() % 5 == 0 && draws@.len() / 5 == amount) by (nonlinear_arith)
        requires
            draws@.len() == 5 * amount,
    ;
    let field = asteroids_from_signed_draws(&draws, displacement_range);
    assert forall|i: int| 0 <= i < amount implies draw_in_range(
        #[trigger] field@[i],
        displacement_range as int,
    ) by {
        assert(field@[i].dx == draws@[5 * i] as int % displacement_range as int);
    }
    field
}

/// Samples `amount` asteroids from unsigned random draws (the field of the
/// instanced asteroid example): five fresh draws per asteroid, in the order
/// x, y, z, scale, rotation, turned into the field by
/// `asteroids_from_unsigned_draws`. Whatever the generator gives, every
/// asteroid lies in the field's ranges.
pub fn sample_asteroids_unsigned(amount: usize, displacement_range: u32) -> (field: Vec<
    AsteroidDraw,
>)
    requires
        displacement_range > 0,
    ensures
        field@.len() == amount,
        forall|i: int| 0 <= i < amount ==> draw_in_range(#[trigger] field@[i], displacement_range as int),
{
    let mut draws: Vec<u32> = Vec::new();
    let mut i: usize = 0;
    while i < amount
        invariant
            i <= amount,
            draws@.len() == 5 * i,
        decreases amount - i,
    {
        draws.push(random_u32());
        draws.push(random_u32());
        draws.push(random_u32());
        draws.push(random_u32());
        draws.push(random_u32());
        i = i + 1;
    }
    assert(draws@.len() % 5 == 0 && draws@.len() / 5 == amount) by (nonlinear_arith)
        requires
            draws@.len() == 5 * amount,
    ;
    let field = asteroids_from_unsigned_draws(&draws, displacement_range);
    assert forall|i: int| 0 <= i < amount implies draw_in_range(
        #[trigger] field@[i],
        displacement_range as int,
    ) by {
        assert(field@[i].dx == draws@[5 * i] % displacement_range);
    }
    field
}

} // verus!
