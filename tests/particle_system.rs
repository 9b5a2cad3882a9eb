use particles::fixed::Fixed;
use particles::particle_system::{
    accumulate_delta_velocity, calculate_delta_velocity, v, Particle, ParticleSystem, ParticleSystemParameters, Vector2,
};
use particles::interaction::{interaction_force, KindTable};
use particles::sqrt::Sqrt;

struct Constant {
    external: Vector2,
    internal: Fixed,
}

impl ParticleSystemParameters for Constant {
    type Props = usize;

    fn external_force(&self, _p: &Particle<usize>, _delta_time: Fixed) -> Vector2 {
        self.external
    }

    fn internal_force(&self, _t: &Particle<usize>, _o: &Particle<usize>, _dt: Fixed) -> Fixed {
        self.internal
    }
}

fn fx(units: f64) -> Fixed {
    Fixed::from_raw((units * 1_000_000.0).round() as i64)
}

fn vec2(x: f64, y: f64) -> Vector2 {
    v(fx(x), fx(y))
}

fn particle(kind: usize, mass: f64, position: Vector2, velocity: Vector2) -> Particle<usize> {
    Particle { props: kind, mass: fx(mass), position, velocity }
}

fn quiet(internal: f64) -> Constant {
    Constant { external: vec2(0.0, 0.0), internal: fx(internal) }
}

#[test]
fn fixed_point_arithmetic() {
    assert_eq!(fx(1.5).add(fx(2.25)), fx(3.75));
    assert_eq!(fx(1.5).sub(fx(2.25)), fx(-0.75));
    assert_eq!(fx(1.5).mul(fx(-2.0)), fx(-3.0));
    assert_eq!(fx(1.0).div(fx(3.0)).raw, 333_333);
    assert_eq!(fx(-1.0).div(fx(3.0)).raw, -333_333);
    assert_eq!(fx(2.0).neg(), fx(-2.0));
    assert_eq!(Fixed::from_int(-7), fx(-7.0));
    assert_eq!(Fixed::zero().raw, 0);
    assert!(fx(0.5).lt(fx(0.75)));
    assert!(!fx(0.75).lt(fx(0.75)));
}

#[test]
fn fixed_point_edges() {
    let max = Fixed::from_raw(i64::MAX);
    let min = Fixed::from_raw(-i64::MAX);
    assert_eq!(max.add(fx(1.0)), max);
    assert_eq!(min.sub(fx(1.0)), min);
    assert_eq!(Fixed::from_raw(i64::MIN).add(Fixed::zero()), min);
    assert_eq!(min.neg(), max);
    assert_eq!(Fixed::from_raw(i64::MIN).neg(), max);
    assert_eq!(max.mul(fx(2.0)), max);
    assert_eq!(max.mul(fx(-2.0)), min);
    assert_eq!(fx(3.0).div(Fixed::zero()), max);
    assert_eq!(fx(-3.0).div(Fixed::zero()), min);
    assert_eq!(Fixed::zero().div(Fixed::zero()), Fixed::zero());
}

#[test]
fn fixed_point_roots() {
    assert_eq!(fx(4.0).sqrt(), fx(2.0));
    assert_eq!(fx(2.0).sqrt().raw, 1_414_213);
    assert_eq!(fx(-1.0).sqrt(), Fixed::zero());
    assert_eq!(vec2(3.0, 4.0).length(), fx(5.0));
    assert_eq!(vec2(3.0, 4.0).square_length(), fx(25.0));
}

#[test]
fn vector2_operations() {
    let a = vec2(1.0, -2.0);
    let b = vec2(0.5, 4.0);
    assert_eq!(a.add(b), vec2(1.5, 2.0));
    assert_eq!(a.sub(b), vec2(0.5, -6.0));
    assert_eq!(a.scale(fx(2.0)), vec2(2.0, -4.0));
    assert_eq!(a.divide(fx(2.0)), vec2(0.5, -1.0));
    assert_eq!(a.dot(b), fx(-7.5));
    assert_eq!(a.perpendicular(), vec2(2.0, 1.0));
    assert_eq!(Vector2::new(fx(1.0), fx(2.0)), vec2(1.0, 2.0));
    assert_eq!(Vector2::zero(), vec2(0.0, 0.0));
}

#[test]
fn coincident_particles_give_zero() {
    let p = particle(0, 2.0, vec2(3.0, -1.0), vec2(1.0, 1.0));
    let r = calculate_delta_velocity(&p, &p, fx(0.1), vec2(5.0, 5.0), vec2(-3.0, 2.0), fx(9.0));
    assert_eq!(r, vec2(0.0, 0.0));
    let q = particle(0, 1.0, vec2(3.005, -1.0), vec2(0.0, 0.0));
    let r = calculate_delta_velocity(&p, &q, fx(0.1), vec2(5.0, 5.0), vec2(-3.0, 2.0), fx(9.0));
    assert_eq!(r, vec2(0.0, 0.0));
}

#[test]
fn pair_delta_velocity_formula() {
    let p0 = particle(0, 1.0, vec2(0.0, 0.0), vec2(0.0, 0.0));
    let p1 = particle(0, 1.0, vec2(2.0, 0.0), vec2(0.0, 0.0));
    // normal (1, 0), tangent (0, 1): dv_t = 3 * 0.5 = 1.5;
    // dv_n = ((2 + 0) / 2 - 0 + 2 + 1 * 2) * 0.5 / 2 = 1.25
    let r = calculate_delta_velocity(&p0, &p1, fx(0.5), vec2(2.0, 3.0), vec2(0.0, 0.0), fx(1.0));
    assert_eq!(r, vec2(1.25, 1.5));
}

#[test]
fn momentum_scenario() {
    let ps = vec![
        particle(0, 1.0, vec2(-1.0, 0.0), vec2(0.0, 0.0)),
        particle(1, 1.0, vec2(1.0, 0.0), vec2(0.0, 0.0)),
    ];
    let mut system = ParticleSystem::new(quiet(3.0), ps);
    system.update(fx(0.1));
    let out = system.particles();
    assert_eq!(out[0].velocity, vec2(0.3, 0.0));
    assert_eq!(out[1].velocity, vec2(-0.3, 0.0));
    assert_eq!(out[0].velocity, out[1].velocity.neg());
}

#[test]
fn single_particle_stability() {
    let ps = vec![particle(4, 1.0, vec2(2.0, 3.0), vec2(0.0, 0.0))];
    let mut system = ParticleSystem::new(quiet(0.0), ps);
    system.update(fx(0.25));
    system.update(fx(-1.0));
    let out = system.particles();
    assert_eq!(out[0].velocity, vec2(0.0, 0.0));
    assert_eq!(out[0].position, vec2(2.0, 3.0));
    assert_eq!(out[0].props, 4);
}

#[test]
fn integration_correctness() {
    let ps = vec![particle(0, 1.0, vec2(10.0, -4.0), vec2(2.0, 0.0))];
    let mut system = ParticleSystem::new(quiet(0.0), ps);
    system.update(fx(0.5));
    let out = system.particles();
    assert_eq!(out[0].position, vec2(11.0, -4.0));
    assert_eq!(out[0].velocity, vec2(2.0, 0.0));
}

#[test]
fn zero_time_step_changes_nothing() {
    let ps = vec![
        particle(0, 1.0, vec2(0.0, 0.0), vec2(1.0, 2.0)),
        particle(1, 2.0, vec2(3.0, 4.0), vec2(-1.0, 0.5)),
    ];
    let forces = Constant { external: vec2(1.0, 1.0), internal: fx(5.0) };
    let mut system = ParticleSystem::new(forces, ps.clone());
    system.update(Fixed::zero());
    for (a, b) in system.particles().iter().zip(ps.iter()) {
        assert_eq!(a.position, b.position);
        assert_eq!(a.velocity, b.velocity);
    }
}

#[test]
fn buffer_integrity() {
    let ps = vec![
        particle(0, 1.0, vec2(0.0, 0.0), vec2(0.0, 0.0)),
        particle(1, 2.0, vec2(5.0, 0.0), vec2(0.0, 1.0)),
        particle(2, 1.5, vec2(0.0, 7.0), vec2(-1.0, 0.0)),
        particle(2, 1.5, vec2(0.0, 7.0), vec2(1.0, 0.0)),
    ];
    let mut system = ParticleSystem::new(quiet(1.0), ps);
    for _ in 0..50 {
        system.update(fx(0.05));
        assert_eq!(system.particles().len(), 4);
    }
    let kinds: Vec<usize> = system.particles().iter().map(|p| p.props).collect();
    assert_eq!(kinds, vec![0, 1, 2, 2]);
}

#[test]
fn empty_system_stays_empty() {
    let mut system = ParticleSystem::new(quiet(1.0), Vec::new());
    system.update(fx(1.0));
    assert_eq!(system.particles().len(), 0);
}

#[test]
fn interaction_force_by_distance() {
    let s = vec2(2.0, 0.5);
    // Below D_0: strengths.x * (distance - 30).
    assert_eq!(interaction_force(s, fx(10.0)), fx(-40.0));
    // Between D_0 and D_1: strengths.y * (distance - 30).
    assert_eq!(interaction_force(s, fx(40.0)), fx(5.0));
    // Between D_1 and D_MAX: strengths.y * 30 * (120 - distance) / 60.
    assert_eq!(interaction_force(s, fx(90.0)), fx(7.5));
    assert_eq!(interaction_force(s, fx(120.0)), fx(0.0));
    assert_eq!(interaction_force(s, fx(500.0)), fx(0.0));
}

#[test]
fn kind_table_lookup_in_either_order() {
    let table = KindTable::new(vec![(0, 1, vec2(1.0, 2.0)), (1, 1, vec2(3.0, 4.0)), (0, 1, vec2(9.0, 9.0))]);
    assert_eq!(table.get(0, 1), Some(vec2(1.0, 2.0)));
    assert_eq!(table.get(1, 0), Some(vec2(1.0, 2.0)));
    assert_eq!(table.get(1, 1), Some(vec2(3.0, 4.0)));
    assert_eq!(table.get(2, 0), None);
}

#[test]
fn momentum_balance_with_unequal_masses() {
    let ps = vec![
        particle(0, 1.0, vec2(0.0, 0.0), vec2(0.0, 0.0)),
        particle(1, 3.0, vec2(3.0, 4.0), vec2(0.0, 0.0)),
    ];
    let mut system = ParticleSystem::new(quiet(-2.0), ps);
    system.update(fx(0.2));
    let out = system.particles();
    assert_ne!(out[0].velocity, vec2(0.0, 0.0));
    assert_eq!(out[0].velocity, out[1].velocity.neg());
}

#[test]
fn accumulated_change_skips_self_and_sums_the_rest() {
    let ps = vec![
        particle(0, 1.0, vec2(0.0, 0.0), vec2(0.0, 0.0)),
        particle(0, 1.0, vec2(2.0, 0.0), vec2(0.0, 0.0)),
        particle(0, 1.0, vec2(0.0, 0.0), vec2(0.0, 0.0)),
        particle(0, 1.0, vec2(0.0, -4.0), vec2(0.0, 0.0)),
    ];
    let zero = vec2(0.0, 0.0);
    let row = vec![
        (vec2(100.0, 100.0), zero, fx(100.0)),
        (zero, zero, fx(1.0)),
        (zero, zero, fx(50.0)),
        (zero, zero, fx(2.0)),
    ];
    // From particle 1: normal (1, 0), 1 * 2 * 0.5 / 2 = 0.5 along it.
    // Particle 2 coincides with particle 0 and adds nothing.
    // From particle 3: normal (0, -1), 2 * 2 * 0.5 / 2 = 1 along it.
    let dv = accumulate_delta_velocity(&ps, 0, &row, fx(0.5));
    assert_eq!(dv, vec2(0.5, -1.0));
}
