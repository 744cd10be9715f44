use nbody::{Body, Scalar, Universe, Vec2};

#[derive(Clone, Copy, Debug, PartialEq)]
struct Real(f64);

impl Scalar for Real {
    fn zero() -> Self {
        Real(0.0)
    }

    fn plus(self, rhs: Self) -> Self {
        Real(self.0 + rhs.0)
    }

    fn minus(self, rhs: Self) -> Self {
        Real(self.0 - rhs.0)
    }

    fn times(self, rhs: Self) -> Self {
        Real(self.0 * rhs.0)
    }

    fn over(self, rhs: Self) -> Self {
        Real(self.0 / rhs.0)
    }

    fn sqrt(self) -> Self {
        Real(self.0.sqrt())
    }

    fn is_zero(self) -> bool {
        self.0 == 0.0
    }
}

fn v(x: f64, y: f64) -> Vec2<Real> {
    Vec2 { x: Real(x), y: Real(y) }
}

fn body(pos: (f64, f64), vel: (f64, f64), mass: f64) -> Body<Real> {
    Body { pos: v(pos.0, pos.1), vel: v(vel.0, vel.1), mass: Real(mass) }
}

fn bits(b: &Body<Real>) -> [u64; 5] {
    [
        b.pos.x.0.to_bits(),
        b.pos.y.0.to_bits(),
        b.vel.x.0.to_bits(),
        b.vel.y.0.to_bits(),
        b.mass.0.to_bits(),
    ]
}

fn finite(b: &Body<Real>) -> bool {
    b.pos.x.0.is_finite() && b.pos.y.0.is_finite() && b.vel.x.0.is_finite() && b.vel.y.0.is_finite()
}

fn sun() -> Body<Real> {
    body((0.0, 0.0), (0.0, 0.0), 1.989e30)
}

fn earth() -> Body<Real> {
    body((1.496e11, 0.0), (0.0, 29_780.0), 5.972e24)
}

#[test]
fn new_keeps_bodies_and_constants() {
    let universe = Universe::new(vec![sun(), earth()], Real(6.67430e-11), Real(10.0));
    assert_eq!(universe.bodies(), &vec![sun(), earth()]);
    assert_eq!(universe.g(), Real(6.67430e-11));
    assert_eq!(universe.dt(), Real(10.0));
}

#[test]
fn step_of_an_empty_universe_does_nothing() {
    let mut universe: Universe<Real> = Universe::new(Vec::new(), Real(1.0), Real(1.0));
    universe.step();
    assert!(universe.bodies().is_empty());
}

#[test]
fn step_moves_two_bodies_towards_each_other() {
    let a = body((0.0, 0.0), (0.0, 0.0), 8.0);
    let b = body((4.0, 0.0), (0.0, 0.0), 4.0);
    let mut universe = Universe::new(vec![a, b], Real(2.0), Real(0.5));
    universe.step();
    // Force 2 * 8 * 4 / 16 = 4 on the first, -4 on the second.
    // Accelerations 4 / 8 = 0.5 and -4 / 4 = -1; velocities 0.25 and -0.5;
    // positions 0 + 0.25 * 0.5 and 4 - 0.5 * 0.5.
    assert_eq!(universe.bodies()[0], body((0.125, 0.0), (0.25, 0.0), 8.0));
    assert_eq!(universe.bodies()[1], body((3.75, 0.0), (-0.5, 0.0), 4.0));
    universe.step();
    // Distance 3.625: force 64 / 3.625^2, no longer a round number.
    let r: f64 = 3.75 - 0.125;
    let f = 2.0 * 8.0 * 4.0 / (r * r) * r / r;
    let v0 = 0.25 + f / 8.0 * 0.5;
    let v1 = -0.5 + (0.0 - f) / 4.0 * 0.5;
    assert_eq!(universe.bodies()[0], body((0.125 + v0 * 0.5, 0.0), (v0, 0.0), 8.0));
    assert_eq!(universe.bodies()[1], body((3.75 + v1 * 0.5, 0.0), (v1, 0.0), 4.0));
}

#[test]
fn step_works_in_both_dimensions() {
    let a = body((1.0, 1.0), (0.0, 0.0), 1.0);
    let b = body((4.0, 5.0), (0.0, 0.0), 0.25);
    let mut universe = Universe::new(vec![a, b], Real(500.0), Real(0.5));
    universe.step();
    // The pair's force is (3, 4): accelerations (3, 4) and (-12, -16).
    assert_eq!(universe.bodies()[0], body((1.75, 2.0), (1.5, 2.0), 1.0));
    assert_eq!(universe.bodies()[1], body((1.0, 1.0), (-6.0, -8.0), 0.25));
}

#[test]
fn step_moves_the_position_with_the_new_velocity() {
    let a = body((0.0, 0.0), (1.0, 0.0), 8.0);
    let b = body((4.0, 0.0), (0.0, 2.0), 4.0);
    let mut universe = Universe::new(vec![a, b], Real(2.0), Real(0.5));
    universe.step();
    // With the old velocity the first body would stand at 0.5.
    assert_eq!(universe.bodies()[0], body((0.625, 0.0), (1.25, 0.0), 8.0));
    assert_eq!(universe.bodies()[1], body((3.75, 1.0), (-0.5, 2.0), 4.0));
}

#[test]
fn step_takes_every_force_from_the_positions_at_its_start() {
    let start = vec![
        body((0.0, 0.0), (0.0, 1.0), 16.0),
        body((4.0, 0.0), (0.0, 0.0), 4.0),
        body((0.0, 8.0), (-1.0, 0.0), 2.0),
    ];
    let g = Real(2.0);
    let dt = Real(0.25);
    let forces = nbody::gravity::net_forces(&start, g);
    let mut universe = Universe::new(start.clone(), g, dt);
    universe.step();
    for k in 0..start.len() {
        let mut expected = start[k];
        expected.advance(forces[k], dt);
        assert_eq!(universe.bodies()[k], expected);
        let vel = start[k].vel.plus(forces[k].over(start[k].mass).times(dt));
        assert_eq!(universe.bodies()[k].vel, vel);
        assert_eq!(universe.bodies()[k].pos, start[k].pos.plus(vel.times(dt)));
    }
}

#[test]
fn step_divides_the_summed_force_by_the_mass() {
    // The last body is pulled with 1 by the first and with 2 by the second,
    // both along +x. Its acceleration is 3 / 10, not 1 / 10 + 2 / 10.
    let start = vec![
        body((1.0, 0.0), (0.0, 0.0), 1.0),
        body((2.0, 0.0), (0.0, 0.0), 8.0),
        body((0.0, 0.0), (0.0, 0.0), 10.0),
    ];
    let forces = nbody::gravity::net_forces(&start, Real(0.1));
    assert_eq!(forces[2], v(3.0, 0.0));
    let mut universe = Universe::new(start, Real(0.1), Real(1.0));
    universe.step();
    assert_eq!(universe.bodies()[2].vel, v(0.3, 0.0));
    assert_ne!(universe.bodies()[2].vel.x.0, 0.1 + 0.2);
}

#[test]
fn advance_integrates_velocity_before_position() {
    let mut b = body((1.0, 2.0), (3.0, 4.0), 2.0);
    b.advance(v(8.0, -4.0), Real(0.5));
    // Acceleration (4, -2); velocity (3 + 2, 4 - 1); position (1 + 2.5, 2 + 1.5).
    assert_eq!(b, body((3.5, 3.5), (5.0, 3.0), 2.0));
}

#[test]
fn coincident_bodies_stay_finite() {
    let a = body((2.0, 3.0), (1.0, 0.0), 5.0);
    let b = body((2.0, 3.0), (0.0, -1.0), 7.0);
    let mut universe = Universe::new(vec![a, b], Real(6.67430e-11), Real(0.5));
    universe.step();
    assert!(finite(&universe.bodies()[0]));
    assert!(finite(&universe.bodies()[1]));
    // No force between them: each moves on with its own velocity.
    assert_eq!(universe.bodies()[0], body((2.5, 3.0), (1.0, 0.0), 5.0));
    assert_eq!(universe.bodies()[1], body((2.0, 2.5), (0.0, -1.0), 7.0));
}

#[test]
fn coincident_bodies_at_rest_stay_finite_for_many_steps() {
    let a = body((2.0, 3.0), (0.0, 0.0), 5.0);
    let b = body((2.0, 3.0), (0.0, 0.0), 7.0);
    let mut universe = Universe::new(vec![a, b], Real(6.67430e-11), Real(60.0));
    for _ in 0..100 {
        universe.step();
        assert!(finite(&universe.bodies()[0]));
        assert!(finite(&universe.bodies()[1]));
    }
    assert_eq!(universe.bodies(), &vec![a, b]);
}

#[test]
fn coincident_pair_is_still_attracted_by_a_third_body() {
    let a = body((0.0, 0.0), (0.0, 0.0), 8.0);
    let c = body((4.0, 0.0), (0.0, 0.0), 4.0);
    let mut universe = Universe::new(vec![a, a, c], Real(2.0), Real(0.5));
    universe.step();
    assert_eq!(universe.bodies()[0], body((0.125, 0.0), (0.25, 0.0), 8.0));
    assert_eq!(universe.bodies()[1], body((0.125, 0.0), (0.25, 0.0), 8.0));
    assert_eq!(universe.bodies()[2], body((3.5, 0.0), (-1.0, 0.0), 4.0));
}

#[test]
fn lone_body_at_rest_never_changes() {
    let b = body((1.496e11, -3.0), (0.0, 0.0), 5.972e24);
    let mut universe = Universe::new(vec![b], Real(6.67430e-11), Real(60.0));
    for _ in 0..1000 {
        universe.step();
        assert_eq!(bits(&universe.bodies()[0]), bits(&b));
    }
}

#[test]
fn lone_moving_body_keeps_its_velocity_and_drifts() {
    let b = body((1.0, 2.0), (0.5, -0.25), 3.0);
    let mut universe = Universe::new(vec![b], Real(6.67430e-11), Real(2.0));
    for step in 1..=100 {
        universe.step();
        let now = universe.bodies()[0];
        assert_eq!(now.vel, v(0.5, -0.25));
        assert_eq!(now.pos, v(1.0 + step as f64, 2.0 - 0.5 * step as f64));
        assert_eq!(now.mass, Real(3.0));
    }
}

#[test]
fn masses_never_change() {
    let moon = body((1.496e11, 3.844e8), (-1022.0, 29_780.0), 7.342e22);
    let start = vec![sun(), earth(), moon];
    let mut universe = Universe::new(start.clone(), Real(6.67430e-11), Real(60.0));
    for _ in 0..2000 {
        universe.step();
        assert_eq!(universe.bodies().len(), 3);
        for k in 0..3 {
            assert_eq!(universe.bodies()[k].mass.0.to_bits(), start[k].mass.0.to_bits());
        }
        assert_eq!(universe.g(), Real(6.67430e-11));
        assert_eq!(universe.dt(), Real(60.0));
    }
}

#[test]
fn runs_from_the_same_start_are_identical() {
    let moon = body((1.496e11, 3.844e8), (-1022.0, 29_780.0), 7.342e22);
    let mut first = Universe::new(vec![sun(), earth(), moon], Real(6.67430e-11), Real(10.0));
    let mut second = Universe::new(vec![sun(), earth(), moon], Real(6.67430e-11), Real(10.0));
    for _ in 0..1000 {
        first.step();
        second.step();
        for k in 0..3 {
            assert_eq!(bits(&first.bodies()[k]), bits(&second.bodies()[k]));
        }
    }
    assert_ne!(bits(&first.bodies()[1]), bits(&earth()));
}

#[test]
fn earth_comes_round_after_one_year() {
    let mut universe = Universe::new(vec![sun(), earth()], Real(6.67430e-11), Real(60.0));
    let radius = 1.496e11;
    let speed = 29_780.0;
    let mut farthest: f64 = 0.0;
    for _ in 0..525_600 {
        universe.step();
        let e = universe.bodies()[1];
        farthest = farthest.max((e.pos.x.0 - radius).hypot(e.pos.y.0));
    }
    // Half way round, the earth stood on the other side of the sun.
    assert!(farthest > 1.9 * radius && farthest < 2.1 * radius, "farthest {}", farthest);
    let e = universe.bodies()[1];
    let off = (e.pos.x.0 - radius).hypot(e.pos.y.0);
    assert!(off < 0.05 * radius, "{} from the start", off);
    let dv = e.vel.x.0.hypot(e.vel.y.0 - speed);
    assert!(dv < 0.05 * speed, "{} off the starting velocity", dv);
    let s = universe.bodies()[0];
    assert!(s.pos.x.0.hypot(s.pos.y.0) < 0.001 * radius);
    assert_eq!(s.mass, Real(1.989e30));
    assert_eq!(e.mass, Real(5.972e24));
}

#[test]
fn first_step_of_the_earth_at_ten_seconds() {
    let mut universe = Universe::new(vec![sun(), earth()], Real(6.67430e-11), Real(10.0));
    universe.step();
    let g: f64 = 6.67430e-11;
    let dx: f64 = 0.0 - 1.496e11;
    let r2: f64 = dx * dx + 0.0 * 0.0;
    let r = r2.sqrt();
    let f = g * 1.989e30 * 5.972e24 / r2;
    let fx = f * (1.496e11 - 0.0) / r;
    let ax: f64 = (0.0 - fx) / 5.972e24;
    let vx: f64 = 0.0 + ax * 10.0;
    let e = universe.bodies()[1];
    assert_eq!(e.vel.x.0.to_bits(), vx.to_bits());
    assert_eq!(e.vel.y.0, 29_780.0);
    assert_eq!(e.pos.x.0.to_bits(), (1.496e11 + vx * 10.0).to_bits());
    assert_eq!(e.pos.y.0, 297_800.0);
    // About 5.93 mm/s^2 towards the sun.
    assert!(ax < -5.92e-3 && ax > -5.94e-3, "acceleration {}", ax);
    let s = universe.bodies()[0];
    assert!(s.vel.x.0 > 0.0 && s.vel.x.0 < 1e-6);
}

#[test]
fn zero_mass_turns_into_nan_and_spreads() {
    let a = body((0.0, 0.0), (0.0, 0.0), 8.0);
    let massless = body((4.0, 0.0), (0.0, 0.0), 0.0);
    let mut universe = Universe::new(vec![a, massless], Real(2.0), Real(0.5));
    universe.step();
    // The massless body is accelerated by 0 / 0.
    assert!(universe.bodies()[1].vel.x.0.is_nan());
    assert!(universe.bodies()[1].pos.x.0.is_nan());
    assert!(finite(&universe.bodies()[0]));
    universe.step();
    // Its position now spoils the force on the other body too.
    assert!(universe.bodies()[0].vel.x.0.is_nan());
    assert!(universe.bodies()[0].pos.x.0.is_nan());
    assert_eq!(universe.bodies()[0].mass, Real(8.0));
    assert_eq!(universe.bodies()[1].mass, Real(0.0));
}

#[test]
fn negative_g_drives_bodies_apart() {
    let a = body((0.0, 0.0), (0.0, 0.0), 8.0);
    let b = body((4.0, 0.0), (0.0, 0.0), 4.0);
    let mut universe = Universe::new(vec![a, b], Real(-2.0), Real(0.5));
    universe.step();
    assert_eq!(universe.bodies()[0], body((-0.125, 0.0), (-0.25, 0.0), 8.0));
    assert_eq!(universe.bodies()[1], body((4.25, 0.0), (0.5, 0.0), 4.0));
}

#[test]
fn zero_dt_freezes_motion() {
    let start = vec![
        body((0.0, 0.0), (1.0, 2.0), 8.0),
        body((4.0, 0.0), (-3.0, 0.5), 4.0),
    ];
    let mut universe = Universe::new(start.clone(), Real(2.0), Real(0.0));
    for _ in 0..10 {
        universe.step();
    }
    assert_eq!(universe.bodies(), &start);
}

#[test]
fn close_approach_gives_huge_but_unchecked_forces() {
    let a = body((0.0, 0.0), (0.0, 0.0), 1.0e30);
    let b = body((1.0e-150, 0.0), (0.0, 0.0), 1.0e30);
    let mut universe = Universe::new(vec![a, b], Real(6.67430e-11), Real(60.0));
    universe.step();
    // r^2 = 1e-300 is no zero: the pair is not left out, and the force overflows.
    assert!(!finite(&universe.bodies()[0]));
    assert!(!finite(&universe.bodies()[1]));
}
