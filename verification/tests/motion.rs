use gravity_sim::arithmetic::{Arithmetic, Vector};
use gravity_sim::body::Body;
use gravity_sim::motion::{IMPULSE_DENOMINATOR, IMPULSE_NUMERATOR};
use gravity_sim::registry::Registry;

type Binary = fn(f32, f32) -> f32;
type Floats = Arithmetic<
    Binary,
    Binary,
    Binary,
    Binary,
    fn(f32, f32) -> bool,
    fn(i64, i64) -> f32,
    fn(f32) -> f32,
>;

fn floats() -> Floats {
    Arithmetic {
        plus: |a, b| a + b,
        minus: |a, b| a - b,
        times: |a, b| a * b,
        over: |a, b| a / b,
        exceeds: |a, b| a > b,
        ratio: |n, d| n as f32 / d as f32,
        root: |a| a.sqrt(),
    }
}

fn point(x: f32, y: f32) -> Vector<f32> {
    Vector { x, y }
}

fn moving(position: (f32, f32), velocity: (f32, f32), acceleration: (f32, f32)) -> Body<f32> {
    Body {
        mass: 50.0,
        radius: 3.0,
        position: point(position.0, position.1),
        acceleration: point(acceleration.0, acceleration.1),
        velocity: point(velocity.0, velocity.1),
    }
}

fn by_hand(body: &mut Body<f32>, dt: f32) {
    body.velocity.x += body.acceleration.x * 0.1;
    body.velocity.y += body.acceleration.y * 0.1;
    body.position.x += body.velocity.x * dt;
    body.position.y += body.velocity.y * dt;
    body.acceleration.x = 0.0;
    body.acceleration.y = 0.0;
}

#[test]
fn impulse_share_is_a_tenth() {
    assert_eq!((IMPULSE_NUMERATOR as f32 / IMPULSE_DENOMINATOR as f32).to_bits(), 0.1f32.to_bits());
}

#[test]
fn velocity_first_then_position_then_rest() {
    let ops = floats();
    let body = moving((10.0, 20.0), (2.0, -4.0), (30.0, 50.0));
    let moved = ops.advance(body, 0.5);
    assert_eq!(moved.velocity, point(2.0 + 30.0 * 0.1, -4.0 + 50.0 * 0.1));
    assert_eq!(
        moved.position,
        point(10.0 + (2.0 + 30.0 * 0.1) * 0.5, 20.0 + (-4.0 + 50.0 * 0.1) * 0.5)
    );
    assert_eq!(moved.velocity, point(5.0, 1.0));
    assert_eq!(moved.position, point(12.5, 20.5));
    assert_eq!(moved.acceleration.x.to_bits(), 0.0f32.to_bits());
    assert_eq!(moved.acceleration.y.to_bits(), 0.0f32.to_bits());
    assert_eq!(moved.mass, 50.0);
    assert_eq!(moved.radius, 3.0);
}

#[test]
fn position_uses_the_new_velocity() {
    let ops = floats();
    let body = moving((0.0, 0.0), (0.0, 0.0), (10.0, -20.0));
    let moved = ops.advance(body, 2.0);
    assert_eq!(moved.velocity, point(1.0, -2.0));
    assert_eq!(moved.position, point(2.0, -4.0));
}

#[test]
fn velocity_gain_does_not_depend_on_the_length_of_the_tick() {
    let ops = floats();
    let body = moving((1.0, 1.0), (3.0, 3.0), (7.0, -7.0));
    let short = ops.advance(body, 0.001);
    let long = ops.advance(body, 100.0);
    assert_eq!(short.velocity, long.velocity);
    assert_ne!(short.position, long.position);
}

#[test]
fn tick_of_no_length_moves_nothing() {
    let ops = floats();
    let body = moving((1.0, 2.0), (3.0, 4.0), (5.0, 6.0));
    let moved = ops.advance(body, 0.0);
    assert_eq!(moved.position, point(1.0, 2.0));
    assert_eq!(moved.velocity, point(3.0 + 5.0 * 0.1, 4.0 + 6.0 * 0.1));
    assert_eq!(moved.acceleration, point(0.0, 0.0));
}

#[test]
fn body_without_acceleration_drifts() {
    let ops = floats();
    let body = moving((1.0, 2.0), (3.0, -4.0), (0.0, 0.0));
    let moved = ops.advance(body, 0.25);
    assert_eq!(moved.velocity, point(3.0, -4.0));
    assert_eq!(moved.position, point(1.75, 1.0));
}

#[test]
fn advance_rounds_as_the_formula_does() {
    let ops = floats();
    let mut seed: u32 = 987;
    let mut next = move || {
        seed = seed.wrapping_mul(1_664_525).wrapping_add(1_013_904_223);
        (seed >> 8) as f32 / 16_777_216.0 * 200.0 - 100.0
    };
    for _ in 0..2000 {
        let body = moving((next(), next()), (next(), next()), (next(), next()));
        let dt = (next() + 100.0) / 4000.0;
        let moved = ops.advance(body, dt);
        let mut expected = body;
        by_hand(&mut expected, dt);
        assert_eq!(moved.velocity.x.to_bits(), expected.velocity.x.to_bits());
        assert_eq!(moved.velocity.y.to_bits(), expected.velocity.y.to_bits());
        assert_eq!(moved.position.x.to_bits(), expected.position.x.to_bits());
        assert_eq!(moved.position.y.to_bits(), expected.position.y.to_bits());
        assert_eq!(moved.acceleration.x.to_bits(), 0);
        assert_eq!(moved.acceleration.y.to_bits(), 0);
        assert_eq!(moved.mass, body.mass);
        assert_eq!(moved.radius, body.radius);
    }
}

#[test]
fn integrate_advances_every_body_by_itself() {
    let ops = floats();
    let bodies = [
        moving((0.0, 0.0), (1.0, 0.0), (0.0, 10.0)),
        moving((5.0, 5.0), (0.0, -1.0), (20.0, 0.0)),
        moving((-3.0, 8.0), (2.0, 2.0), (0.0, 0.0)),
    ];
    let mut registry = Registry::new();
    for body in bodies {
        registry.insert(body);
    }
    ops.integrate(&mut registry, 0.5);
    assert_eq!(registry.len(), 3);
    for (k, body) in bodies.iter().enumerate() {
        assert_eq!(registry.get(k), Some(&ops.advance(*body, 0.5)));
    }
    assert_eq!(registry.get(0).unwrap().position, point(0.5, 0.5));
    assert_eq!(registry.get(1).unwrap().position, point(6.0, 4.5));
    assert_eq!(registry.get(2).unwrap().position, point(-2.0, 9.0));
}

#[test]
fn integrate_of_no_body_does_nothing() {
    let ops = floats();
    let mut registry: Registry<Body<f32>> = Registry::new();
    ops.integrate(&mut registry, 1.0);
    assert!(registry.is_empty());
}

#[test]
fn integrate_clears_every_acceleration() {
    let ops = floats();
    let mut registry = Registry::new();
    for k in 0..20 {
        registry.insert(moving((k as f32, 0.0), (0.0, 0.0), (k as f32 + 1.0, -1.0)));
    }
    ops.integrate(&mut registry, 0.016);
    for body in registry.as_slice() {
        assert_eq!(body.acceleration, point(0.0, 0.0));
    }
}
