use gravity_sim::arithmetic::{Arithmetic, Vector};
use gravity_sim::body::{
    Body, Draw, DENSITY, LAUNCH_DENOMINATOR, LAUNCH_NUMERATOR, PI_DENOMINATOR, PI_NUMERATOR,
    RADIUS_STEPS_PER_UNIT, SPAWN_DRAW_MAX, SPAWN_DRAW_MIN, SPAWN_RADIUS_MAX, SPAWN_RADIUS_MIN,
    SPAWN_REACH_DENOMINATOR, SPAWN_REACH_NUMERATOR,
};
use gravity_sim::gesture::Placement;
use rand::Rng;

type Binary = fn(f32, f32) -> f32;
type Floats = Arithmetic<
    Binary,
    Binary,
    Binary,
    Binary,
    fn(f32, f32) -> bool,
    fn(i64, i64) -> f32,
    fn(f32) -> f32,
>;

fn floats() -> Floats {
    Arithmetic {
        plus: |a, b| a + b,
        minus: |a, b| a - b,
        times: |a, b| a * b,
        over: |a, b| a / b,
        exceeds: |a, b| a > b,
        ratio: |n, d| n as f32 / d as f32,
        root: |a| a.sqrt(),
    }
}

fn point(x: f32, y: f32) -> Vector<f32> {
    Vector { x, y }
}

#[test]
fn pi_is_the_single_precision_pi() {
    let pi = PI_NUMERATOR as f32 / PI_DENOMINATOR as f32;
    assert_eq!(pi.to_bits(), std::f32::consts::PI.to_bits());
    assert_eq!(PI_NUMERATOR as f64 / PI_DENOMINATOR as f64, std::f32::consts::PI as f64);
}

#[test]
fn constants_have_their_values() {
    assert_eq!(DENSITY, 100);
    assert_eq!(RADIUS_STEPS_PER_UNIT, 2);
    assert_eq!(LAUNCH_NUMERATOR as f32 / LAUNCH_DENOMINATOR as f32, -1.5);
    assert_eq!(SPAWN_RADIUS_MIN as f32, 2.0);
    assert_eq!(SPAWN_RADIUS_MAX as f32, 15.0);
    assert_eq!(SPAWN_DRAW_MIN as f32, -1.0);
    assert_eq!(SPAWN_DRAW_MAX as f32, 1.0);
    assert_eq!(SPAWN_REACH_NUMERATOR as f32 / SPAWN_REACH_DENOMINATOR as f32, 0.4);
}

#[test]
fn mass_is_pi_r_cubed_times_density() {
    let ops = floats();
    let mut radius: f32 = 0.0;
    while radius < 40.0 {
        let expected = std::f32::consts::PI * radius * radius * radius * 100.0;
        assert_eq!(ops.mass_of(radius).to_bits(), expected.to_bits(), "radius {}", radius);
        radius += 0.37;
    }
}

#[test]
fn mass_of_known_radii() {
    let ops = floats();
    assert_eq!(ops.mass_of(0.0), 0.0);
    assert_eq!(ops.mass_of(1.0), std::f32::consts::PI * 100.0);
    assert_eq!(ops.mass_of(10.0), std::f32::consts::PI * 10.0 * 10.0 * 10.0 * 100.0);
    assert_eq!(ops.mass_of(2.0), std::f32::consts::PI * 2.0 * 2.0 * 2.0 * 100.0);
    assert!((ops.mass_of(10.0) - 314_159.27).abs() < 0.5);
}

#[test]
fn mass_in_whole_numbers() {
    let ops: Arithmetic<_, _, _, _, _, _, _> = Arithmetic {
        plus: |a: i64, b: i64| a + b,
        minus: |a: i64, b: i64| a - b,
        times: |a: i64, b: i64| a * b,
        over: |a: i64, b: i64| a / b,
        exceeds: |a: i64, b: i64| a > b,
        ratio: |n: i64, d: i64| n / d,
        root: |a: i64| (a as f64).sqrt() as i64,
    };
    assert_eq!(ops.mass_of(2), 3 * 2 * 2 * 2 * 100);
    assert_eq!(ops.mass_of(5), 3 * 125 * 100);
}

#[test]
fn launch_velocity_is_the_drag_times_minus_three_halves() {
    let ops = floats();
    let anchor = point(10.0, -4.0);
    let release = point(14.0, -1.0);
    assert_eq!(ops.launch_velocity(anchor, release), point(-6.0, -4.5));
    assert_eq!(ops.launch_velocity(release, anchor), point(6.0, 4.5));
    assert_eq!(ops.launch_velocity(anchor, anchor), point(-0.0, -0.0));
}

#[test]
fn launch_velocity_rounds_as_the_formula_does() {
    let ops = floats();
    let points = [
        (0.1f32, 0.2f32, 0.3f32, 0.7f32),
        (-123.456, 78.9, 1.0e-3, -5.5e4),
        (1.0e20, -1.0e-20, 3.3, 3.3),
        (7.25, 7.25, 7.25, 7.25),
    ];
    for (ax, ay, rx, ry) in points {
        let velocity = ops.launch_velocity(point(ax, ay), point(rx, ry));
        assert_eq!(velocity.x.to_bits(), ((rx - ax) * -1.5).to_bits());
        assert_eq!(velocity.y.to_bits(), ((ry - ay) * -1.5).to_bits());
    }
}

#[test]
fn radius_grows_by_half_a_unit_per_step() {
    let ops = floats();
    assert_eq!(ops.radius_for(0), 0.0);
    assert_eq!(ops.radius_for(1), 0.5);
    assert_eq!(ops.radius_for(2), 1.0);
    assert_eq!(ops.radius_for(21), 10.5);
    assert_eq!(ops.radius_for(16_777_216), 8_388_608.0);
    let mut summed: f32 = 0.0;
    for steps in 0..5000u32 {
        assert_eq!(ops.radius_for(steps), summed);
        summed += 0.5;
    }
}

#[test]
fn placed_body_follows_the_gesture() {
    let ops = floats();
    let body = ops.place(Placement {
        anchor: point(100.0, 50.0),
        release: point(110.0, 30.0),
        radius_steps: 20,
    });
    assert_eq!(body.radius, 10.0);
    assert_eq!(body.mass, std::f32::consts::PI * 10.0 * 10.0 * 10.0 * 100.0);
    assert_eq!(body.position, point(100.0, 50.0));
    assert_eq!(body.velocity, point(-15.0, 30.0));
    assert_eq!(body.acceleration, point(0.0, 0.0));
}

#[test]
fn gesture_without_radius_places_a_body_without_mass() {
    let ops = floats();
    let body = ops.place(Placement {
        anchor: point(1.0, 2.0),
        release: point(1.0, 2.0),
        radius_steps: 0,
    });
    assert_eq!(body.radius, 0.0);
    assert_eq!(body.mass, 0.0);
    assert_eq!(body.position, point(1.0, 2.0));
    assert_eq!(body.velocity.x, 0.0);
    assert_eq!(body.velocity.y, 0.0);
    assert_eq!(body.acceleration, point(0.0, 0.0));
}

#[test]
fn scattered_body_is_at_rest() {
    let ops = floats();
    let body = ops.scatter(Draw { radius: 4.0, across: 0.5, up: -1.0 }, 800, 600);
    assert_eq!(
        body,
        Body {
            mass: std::f32::consts::PI * 4.0 * 4.0 * 4.0 * 100.0,
            radius: 4.0,
            position: point(0.5 * 800.0 * 0.4, -1.0 * 600.0 * 0.4),
            acceleration: point(0.0, 0.0),
            velocity: point(0.0, 0.0),
        }
    );
    assert_eq!(body.position, point(160.0, -240.0));
}

#[test]
fn scattered_body_reaches_two_fifths_of_the_view() {
    let ops = floats();
    let right = ops.scatter(Draw { radius: 2.0, across: 1.0, up: 1.0 }, 800, 600);
    assert_eq!(right.position, point(0.4 * 800.0, 0.4 * 600.0));
    let left = ops.scatter(Draw { radius: 2.0, across: -1.0, up: -1.0 }, 800, 600);
    assert_eq!(left.position, point(-0.4 * 800.0, -0.4 * 600.0));
    let centre = ops.scatter(Draw { radius: 2.0, across: 0.0, up: 0.0 }, 800, 600);
    assert_eq!(centre.position, point(0.0, 0.0));
}

#[test]
fn scattered_position_rounds_as_the_formula_does() {
    let ops = floats();
    let mut rng = rand::thread_rng();
    for _ in 0..2000 {
        let across: f32 = rng.gen_range(-1.0..=1.0);
        let up: f32 = rng.gen_range(-1.0..=1.0);
        let body = ops.scatter(Draw { radius: 3.0, across, up }, 1920, 1080);
        assert_eq!(body.position.x.to_bits(), (across * 1920 as f32 * 0.4).to_bits());
        assert_eq!(body.position.y.to_bits(), (up * 1080 as f32 * 0.4).to_bits());
    }
}

#[test]
fn random_bodies_stay_within_their_bounds() {
    let ops = floats();
    let mut rng = rand::thread_rng();
    let (width, height) = (800u32, 600u32);
    for _ in 0..5000 {
        let draw = Draw {
            radius: rng.gen_range(SPAWN_RADIUS_MIN as f32..SPAWN_RADIUS_MAX as f32),
            across: rng.gen_range(SPAWN_DRAW_MIN as f32..=SPAWN_DRAW_MAX as f32),
            up: rng.gen_range(SPAWN_DRAW_MIN as f32..=SPAWN_DRAW_MAX as f32),
        };
        let body = ops.scatter(draw, width, height);
        assert!(body.radius >= 2.0 && body.radius < 15.0);
        assert!(body.position.x >= -0.4 * width as f32 && body.position.x <= 0.4 * width as f32);
        assert!(body.position.y >= -0.4 * height as f32 && body.position.y <= 0.4 * height as f32);
        assert_eq!(body.mass, std::f32::consts::PI * body.radius * body.radius * body.radius * 100.0);
        assert_eq!(body.velocity, point(0.0, 0.0));
        assert_eq!(body.acceleration, point(0.0, 0.0));
    }
}

#[test]
fn bounded_tells_whether_a_body_keeps_to_the_bounds() {
    let ops = floats();
    let inside = ops.scatter(Draw { radius: 2.0, across: 1.0, up: -1.0 }, 800, 600);
    assert!(ops.bounded(&inside, 800, 600));
    assert!(!ops.bounded(&inside, 799, 600));
    assert!(!ops.bounded(&inside, 800, 599));
    let small = Body { radius: 1.5, ..inside };
    assert!(!ops.bounded(&small, 800, 600));
    let large = Body { radius: 15.0, ..inside };
    assert!(!ops.bounded(&large, 800, 600));
    let almost = Body { radius: 14.99, ..inside };
    assert!(ops.bounded(&almost, 800, 600));
    let right = Body { position: point(320.5, 0.0), ..inside };
    assert!(!ops.bounded(&right, 800, 600));
    let low = Body { position: point(0.0, -240.5), ..inside };
    assert!(!ops.bounded(&low, 800, 600));
    let centre = Body { position: point(0.0, 0.0), ..inside };
    assert!(ops.bounded(&centre, 800, 600));
    assert!(ops.bounded(&centre, 0, 0));
}

#[test]
fn spread_is_the_draw_times_the_side_times_two_fifths() {
    let ops = floats();
    assert_eq!(ops.spread_of(1.0, 800), 320.0);
    assert_eq!(ops.spread_of(-1.0, 600), -240.0);
    assert_eq!(ops.spread_of(0.25, 1000), 100.0);
    assert_eq!(ops.spread_of(0.3, 777).to_bits(), (0.3f32 * 777.0 * 0.4).to_bits());
}
