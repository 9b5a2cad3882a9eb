use vstd::prelude::*;

use crate::fixed::{
    lemma_neg_div, lemma_neg_mul, lemma_neg_mul_neg, lemma_sub_swap, lemma_zero_rules, Fixed,
    SCALE,
};
use crate::sqrt::Sqrt;

verus! {

/// Squared distance, in raw units, below which two particles count as coincident.
pub const COINCIDENCE_EPSILON: i64 = 100;

/// A planar vector of fixed-point components.
#[derive(Clone, Copy, Debug, PartialEq, Eq, Structural)]
pub struct Vector2 {
    pub x: Fixed,
    pub y: Fixed,
}

/// Shorthand for building a `Vector2`.
pub fn v(x: Fixed, y: Fixed) -> (r: Vector2)
    ensures
        r == (Vector2 { x, y }),
{
    Vector2 { x, y }
}

impl Vector2 {
    /// Whether both components lie in the range that the operations produce.
    pub open spec fn wf(self) -> bool {
        self.x.wf() && self.y.wf()
    }

    pub open spec fn spec_zero() -> Vector2 {
        Vector2 { x: Fixed::spec_zero(), y: Fixed::spec_zero() }
    }

    pub open spec fn spec_add(self, rhs: Vector2) -> Vector2 {
        Vector2 { x: self.x.spec_add(rhs.x), y: self.y.spec_add(rhs.y) }
    }

    pub open spec fn spec_sub(self, rhs: Vector2) -> Vector2 {
        Vector2 { x: self.x.spec_sub(rhs.x), y: self.y.spec_sub(rhs.y) }
    }

    pub open spec fn spec_scale(self, s: Fixed) -> Vector2 {
        Vector2 { x: self.x.spec_mul(s), y: self.y.spec_mul(s) }
    }

    pub open spec fn spec_divide(self, s: Fixed) -> Vector2 {
        Vector2 { x: self.x.spec_div(s), y: self.y.spec_div(s) }
    }

    pub open spec fn spec_neg(self) -> Vector2 {
        Vector2 { x: self.x.spec_neg(), y: self.y.spec_neg() }
    }

    pub open spec fn spec_dot(self, rhs: Vector2) -> Fixed {
        self.x.spec_mul(rhs.x).spec_add(self.y.spec_mul(rhs.y))
    }

    pub open spec fn spec_square_length(self) -> Fixed {
        self.spec_dot(self)
    }

    /// The vector turned a quarter turn counter-clockwise.
    pub open spec fn spec_perpendicular(self) -> Vector2 {
        Vector2 { x: self.y.spec_neg(), y: self.x }
    }

    pub fn new(x: Fixed, y: Fixed) -> (r: Vector2)
        ensures
            r == (Vector2 { x, y }),
    {
        Vector2 { x, y }
    }

    pub fn zero() -> (r: Vector2)
        ensures
            r == Vector2::spec_zero(),
    {
        Vector2 { x: Fixed::zero(), y: Fixed::zero() }
    }

    pub fn add(self, rhs: Vector2) -> (r: Vector2)
        ensures
            r == self.spec_add(rhs),
    {
        Vector2 { x: self.x.add(rhs.x), y: self.y.add(rhs.y) }
    }

    pub fn sub(self, rhs: Vector2) -> (r: Vector2)
        ensures
            r == self.spec_sub(rhs),
    {
        Vector2 { x: self.x.sub(rhs.x), y: self.y.sub(rhs.y) }
    }

    pub fn scale(self, s: Fixed) -> (r: Vector2)
        ensures
            r == self.spec_scale(s),
    {
        Vector2 { x: self.x.mul(s), y: self.y.mul(s) }
    }

    pub fn divide(self, s: Fixed) -> (r: Vector2)
        ensures
            r == self.spec_divide(s),
    {
        Vector2 { x: self.x.div(s), y: self.y.div(s) }
    }

    pub fn neg(self) -> (r: Vector2)
        ensures
            r == self.spec_neg(),
    {
        Vector2 { x: self.x.neg(), y: self.y.neg() }
    }

    pub fn perpendicular(self) -> (r: Vector2)
        ensures
            r == self.spec_perpendicular(),
    {
        Vector2 { x: self.y.neg(), y: self.x }
    }

    pub fn dot(self, rhs: Vector2) -> (r: Fixed)
        ensures
            r == self.spec_dot(rhs),
    {
        self.x.mul(rhs.x).add(self.y.mul(rhs.y))
    }

    pub fn square_length(self) -> (r: Fixed)
        ensures
            r == self.spec_square_length(),
    {
        self.dot(self)
    }

    pub fn length(self) -> (r: Fixed)
        ensures
            r == self.spec_square_length().sqrt_spec(),
    {
        self.square_length().sqrt()
    }
}

/// A point mass with an opaque tag chosen by the caller.
#[derive(Clone, Copy, Debug)]
pub struct Particle<Props> {
    pub props: Props,
    pub mass: Fixed,
    pub position: Vector2,
    pub velocity: Vector2,
}

/// Forces that a caller supplies to the simulation.
pub trait ParticleSystemParameters {
    type Props: Copy;

    /// Force acting on `p` on its own (drag, jitter, outside fields).
    fn external_force(&self, p: &Particle<Self::Props>, delta_time: Fixed) -> Vector2;

    /// Magnitude of the interaction between two particles, along the line that joins them.
    fn internal_force(
        &self,
        p_target: &Particle<Self::Props>,
        p_other: &Particle<Self::Props>,
        delta_time: Fixed,
    ) -> Fixed;
}

/// Whether two positions are too close for a direction between them to be taken.
pub open spec fn coincident(p0: Vector2, p1: Vector2) -> bool {
    p1.spec_sub(p0).spec_square_length().raw < COINCIDENCE_EPSILON
}

/// Change of velocity of `p0` caused by `p1` over `dt`, given the external
/// forces `f0` on `p0` and `f1` on `p1` and the interaction `f10` between them.
pub open spec fn delta_velocity_spec<Props>(
    p0: Particle<Props>,
    p1: Particle<Props>,
    dt: Fixed,
    f0: Vector2,
    f1: Vector2,
    f10: Fixed,
) -> Vector2 {
    let delta = p1.position.spec_sub(p0.position);
    let sqr_len = delta.spec_square_length();
    if sqr_len.raw < COINCIDENCE_EPSILON {
        Vector2::spec_zero()
    } else {
        let normal = delta.spec_divide(sqr_len.sqrt_spec());
        let tangent = normal.spec_perpendicular();
        let dv_t = f0.spec_dot(tangent).spec_div(p0.mass).spec_mul(dt);
        let n0 = f0.spec_dot(normal);
        let n1 = f1.spec_dot(normal);
        let one = Fixed { raw: SCALE };
        let im0 = one.spec_div(p0.mass);
        let im1 = one.spec_div(p1.mass);
        let dvc = n0.spec_add(n1).spec_div(p0.mass.spec_add(p1.mass));
        let dv_n = dvc.spec_sub(n1.spec_mul(im1)).spec_add(n0.spec_mul(im0)).spec_add(
            f10.spec_mul(im0.spec_add(im1)),
        ).spec_mul(dt).spec_div(Fixed { raw: (2 * SCALE) as i64 });
        normal.spec_scale(dv_n).spec_add(tangent.spec_scale(dv_t))
    }
}

/// Change of velocity of `p0` caused by `p1`, from the forces at work on the two.
pub fn calculate_delta_velocity<Props: Copy>(
    p0: &Particle<Props>,
    p1: &Particle<Props>,
    delta_time: Fixed,
    f0: Vector2,
    f1: Vector2,
    f10: Fixed,
) -> (r: Vector2)
    ensures
        r == delta_velocity_spec(*p0, *p1, delta_time, f0, f1, f10),
{
    let delta = p1.position.sub(p0.position);
    let sqr_len = delta.square_length();
    if sqr_len.raw < COINCIDENCE_EPSILON {
        return Vector2::zero();
    }
    let normal = delta.divide(sqr_len.sqrt());
    let tangent = normal.perpendicular();
    let dv_t = f0.dot(tangent).div(p0.mass).mul(delta_time);
    let n0 = f0.dot(normal);
    let n1 = f1.dot(normal);
    let one = Fixed::from_raw(SCALE);
    let im0 = one.div(p0.mass);
    let im1 = one.div(p1.mass);
    let dvc = n0.add(n1).div(p0.mass.add(p1.mass));
    let dv_n = dvc.sub(n1.mul(im1)).add(n0.mul(im0)).add(f10.mul(im0.add(im1))).mul(
        delta_time,
    ).div(Fixed::from_raw(2 * SCALE));
    normal.scale(dv_n).add(tangent.scale(dv_t))
}

/// External forces on a pair and the interaction between them, as one evaluation saw them.
pub type PairForces = (Vector2, Vector2, Fixed);

/// Sum of the velocity changes of particle `i` caused by particles `0..k`
/// other than itself, where `row[j]` holds the forces seen for the pair `(i, j)`.
pub open spec fn accumulated_dv<Props>(
    ps: Seq<Particle<Props>>,
    i: int,
    row: Seq<PairForces>,
    dt: Fixed,
    k: int,
) -> Vector2
    decreases k,
{
    if k <= 0 {
        Vector2::spec_zero()
    } else {
        let prev = accumulated_dv(ps, i, row, dt, k - 1);
        if k - 1 == i {
            prev
        } else {
            let f = row[k - 1];
            prev.spec_add(delta_velocity_spec(ps[i], ps[k - 1], dt, f.0, f.1, f.2))
        }
    }
}

/// `p` with `dv` added to its velocity and then moved by the new velocity over `dt`.
pub open spec fn advanced<Props>(p: Particle<Props>, dv: Vector2, dt: Fixed) -> Particle<Props> {
    let velocity = p.velocity.spec_add(dv);
    Particle {
        props: p.props,
        mass: p.mass,
        position: p.position.spec_add(velocity.spec_scale(dt)),
        velocity,
    }
}

/// The particles after one step of `dt`, where `forces[i][j]` holds the
/// forces seen for the pair `(i, j)`.
pub open spec fn step_spec<Props>(
    ps: Seq<Particle<Props>>,
    forces: Seq<Seq<PairForces>>,
    dt: Fixed,
) -> Seq<Particle<Props>> {
    Seq::new(
        ps.len(),
        |i: int| advanced(ps[i], accumulated_dv(ps, i, forces[i], dt, ps.len() as int), dt),
    )
}

/// Change of velocity of particle `i` caused by all the others, where `row[j]`
/// holds the forces at work on the pair `(i, j)`; `row[i]` is not read.
pub fn accumulate_delta_velocity<Props: Copy>(
    particles: &[Particle<Props>],
    i: usize,
    row: &[PairForces],
    delta_time: Fixed,
) -> (r: Vector2)
    requires
        i < particles@.len(),
        row@.len() == particles@.len(),
    ensures
        r == accumulated_dv(particles@, i as int, row@, delta_time, particles@.len() as int),
{
    let n = particles.len();
    let mut dv = Vector2::zero();
    let mut j: usize = 0;
    while j < n
        invariant
            i < n,
            j <= n,
            n == particles@.len(),
            row@.len() == n,
            dv == accumulated_dv(particles@, i as int, row@, delta_time, j as int),
        decreases n - j,
    {
        if i != j {
            let f = row[j];
            let (p0, p1) = (&particles[i], &particles[j]);
            let d = calculate_delta_velocity(p0, p1, delta_time, f.0, f.1, f.2);
            dv = dv.add(d);
        }
        j = j + 1;
    }
    dv
}

/// A set of particles moved together, in two buffers: the current state and
/// scratch space for the next one.
pub struct ParticleSystem<P: ParticleSystemParameters> {
    particles0: Vec<Particle<P::Props>>,
    particles1: Vec<Particle<P::Props>>,
    params: P,
}

impl<P: ParticleSystemParameters> ParticleSystem<P> {
    /// The current state of the particles.
    pub closed spec fn current(&self) -> Seq<Particle<P::Props>> {
        self.particles0@
    }

    pub fn new(params: P, particles: Vec<Particle<P::Props>>) -> (r: ParticleSystem<P>)
        ensures
            r.current() == particles@,
    {
        let capacity = particles.len();
        ParticleSystem { particles0: particles, particles1: Vec::with_capacity(capacity), params }
    }

    pub fn particles(&self) -> (r: &[Particle<P::Props>])
        ensures
            r@ == self.current(),
    {
        self.particles0.as_slice()
    }

    /// The forces at work on the pair `(p0, p1)`, as `params` gives them.
    /// Coincident particles need none: no force is asked for, and zeros stand in.
    fn pair_forces(
        params: &P,
        p0: &Particle<P::Props>,
        p1: &Particle<P::Props>,
        delta_time: Fixed,
    ) -> (r: PairForces)
        ensures
            coincident(p0.position, p1.position) ==> r == (
                Vector2::spec_zero(),
                Vector2::spec_zero(),
                Fixed::spec_zero(),
            ),
    {
        let delta = p1.position.sub(p0.position);
        if delta.square_length().raw < COINCIDENCE_EPSILON {
            return (Vector2::zero(), Vector2::zero(), Fixed::zero());
        }
        let f0 = params.external_force(p0, delta_time);
        let f1 = params.external_force(p1, delta_time);
        let f10 = params.internal_force(p0, p1, delta_time);
        (f0, f1, f10)
    }

    /// Advances the simulation by `delta_time`: each particle's velocity takes the
    /// changes caused by every other particle, then each particle moves by its
    /// new velocity, and the new state becomes the current one.
    pub fn update(&mut self, delta_time: Fixed)
        ensures
            final(self).current().len() == old(self).current().len(),
            exists|forces: Seq<Seq<PairForces>>|
                final(self).current() == step_spec(old(self).current(), forces, delta_time),
    {
        let ghost ps = self.particles0@;
        let n = self.particles0.len();
        let mut target: Vec<Particle<P::Props>> = Vec::new();
        std::mem::swap(&mut target, &mut self.particles1);
        target.clear();
        let ghost mut forces: Seq<Seq<PairForces>> = Seq::empty();
        let mut row: Vec<PairForces> = Vec::with_capacity(n);
        let mut i: usize = 0;
        while i < n
            invariant
                i <= n,
                n == ps.len(),
                self.particles0@ == ps,
                target@.len() == i,
                forces.len() == i,
                forall|k: int|
                    0 <= k < i ==> #[trigger] target@[k] == (Particle {
                        velocity: ps[k].velocity.spec_add(
                            accumulated_dv(ps, k, forces[k], delta_time, n as int),
                        ),
                        ..ps[k]
                    }),
            decreases n - i,
        {
            row.clear();
            let mut j: usize = 0;
            while j < n
                invariant
                    i < n,
                    j <= n,
                    n == ps.len(),
                    self.particles0@ == ps,
                    row@.len() == j,
                decreases n - j,
            {
                if i != j {
                    let f = Self::pair_forces(
                        &self.params,
                        &self.particles0[i],
                        &self.particles0[j],
                        delta_time,
                    );
                    row.push(f);
                } else {
                    row.push((Vector2::zero(), Vector2::zero(), Fixed::zero()));
                }
                j = j + 1;
            }
            let dv = accumulate_delta_velocity(
                self.particles0.as_slice(),
                i,
                row.as_slice(),
                delta_time,
            );
            let mut next = self.particles0[i];
            next.velocity = next.velocity.add(dv);
            target.push(next);
            proof {
                forces = forces.push(row@);
            }
            i = i + 1;
        }
        let mut k: usize = 0;
        while k < n
            invariant
                k <= n,
                n == ps.len(),
                target@.len() == n,
                forces.len() == n,
                forall|m: int|
                    0 <= m < k ==> #[trigger] target@[m] == advanced(
                        ps[m],
                        accumulated_dv(ps, m, forces[m], delta_time, n as int),
                        delta_time,
                    ),
                forall|m: int|
                    k <= m < n ==> #[trigger] target@[m] == (Particle {
                        velocity: ps[m].velocity.spec_add(
                            accumulated_dv(ps, m, forces[m], delta_time, n as int),
                        ),
                        ..ps[m]
                    }),
            decreases n - k,
        {
            let mut p = target[k];
            p.position = p.position.add(p.velocity.scale(delta_time));
            target.set(k, p);
            k = k + 1;
        }
        self.particles0.clear();
        std::mem::swap(&mut self.particles0, &mut target);
        self.particles1 = target;
        assert(self.particles0@ =~= step_spec(ps, forces, delta_time));
        assert(ps == old(self).current());
        assert(self.current() == step_spec(old(self).current(), forces, delta_time));
    }
}

/// Two particles at the same position give each other no change of velocity,
/// whatever their masses and the forces at work.
pub proof fn lemma_coincident_gives_zero<Props>(
    p: Particle<Props>,
    dt: Fixed,
    f0: Vector2,
    f1: Vector2,
    f10: Fixed,
)
    ensures
        delta_velocity_spec(p, p, dt, f0, f1, f10) == Vector2::spec_zero(),
{
    let delta = p.position.spec_sub(p.position);
    assert(delta == Vector2::spec_zero());
    assert(crate::fixed_vector::trunc_div(0, SCALE as int) == 0);
    assert(delta.x.raw == 0 && delta.y.raw == 0);
    assert(delta.x.spec_mul(delta.x) == Fixed::spec_zero());
    assert(delta.y.spec_mul(delta.y) == Fixed::spec_zero());
    assert(delta.spec_square_length().raw == 0);
}

/// A particle alone keeps its velocity and moves by exactly its velocity times
/// `dt`; at rest it stays where it is.
pub proof fn lemma_single_particle<Props>(
    ps: Seq<Particle<Props>>,
    forces: Seq<Seq<PairForces>>,
    dt: Fixed,
)
    requires
        ps.len() == 1,
        ps[0].position.wf(),
        ps[0].velocity.wf(),
    ensures
        step_spec(ps, forces, dt).len() == 1,
        step_spec(ps, forces, dt)[0].velocity == ps[0].velocity,
        step_spec(ps, forces, dt)[0].position == ps[0].position.spec_add(
            ps[0].velocity.spec_scale(dt),
        ),
        step_spec(ps, forces, dt)[0].props == ps[0].props,
        step_spec(ps, forces, dt)[0].mass == ps[0].mass,
        ps[0].velocity == Vector2::spec_zero() ==> step_spec(ps, forces, dt)[0].position
            == ps[0].position,
{
    let dv = accumulated_dv(ps, 0, forces[0], dt, 1);
    assert(dv == accumulated_dv(ps, 0, forces[0], dt, 0));
    assert(dv == Vector2::spec_zero());
    let vel = ps[0].velocity;
    assert(vel.spec_add(dv) == vel);
    assert(crate::fixed_vector::trunc_div(0 * dt.raw, SCALE as int) == 0);
    let pos = ps[0].position;
    assert(vel == Vector2::spec_zero() ==> pos.spec_add(vel.spec_scale(dt)) == pos);
}

/// With no external force and an interaction of the same magnitude both ways,
/// the change of velocity that `p1` causes `p0` is exactly the opposite of the
/// one that `p0` causes `p1`, whatever the masses.
pub proof fn lemma_pair_momentum_balance<Props>(
    p0: Particle<Props>,
    p1: Particle<Props>,
    dt: Fixed,
    f10: Fixed,
)
    ensures
        delta_velocity_spec(p1, p0, dt, Vector2::spec_zero(), Vector2::spec_zero(), f10)
            == delta_velocity_spec(
            p0,
            p1,
            dt,
            Vector2::spec_zero(),
            Vector2::spec_zero(),
            f10,
        ).spec_neg(),
{
    let zero = Fixed::spec_zero();
    let z = Vector2::spec_zero();
    let delta = p1.position.spec_sub(p0.position);
    let delta2 = p0.position.spec_sub(p1.position);
    lemma_sub_swap(p0.position.x, p1.position.x);
    lemma_sub_swap(p0.position.y, p1.position.y);
    assert(delta2 == delta.spec_neg());
    lemma_neg_mul_neg(delta.x, delta.x);
    lemma_neg_mul_neg(delta.y, delta.y);
    let sqr_len = delta.spec_square_length();
    assert(delta2.spec_square_length() == sqr_len);
    lemma_zero_rules(zero);
    if sqr_len.raw >= COINCIDENCE_EPSILON {
        let len = sqr_len.sqrt_spec();
        let normal = delta.spec_divide(len);
        let normal2 = delta2.spec_divide(len);
        lemma_neg_div(delta.x, len);
        lemma_neg_div(delta.y, len);
        assert(normal2 == normal.spec_neg());
        let tangent = normal.spec_perpendicular();
        let tangent2 = normal2.spec_perpendicular();
        lemma_zero_rules(normal.x);
        lemma_zero_rules(normal.y);
        lemma_zero_rules(normal2.x);
        lemma_zero_rules(normal2.y);
        lemma_zero_rules(tangent.x);
        lemma_zero_rules(tangent2.x);
        lemma_zero_rules(p0.mass);
        lemma_zero_rules(p1.mass);
        lemma_zero_rules(p0.mass.spec_add(p1.mass));
        lemma_zero_rules(p1.mass.spec_add(p0.mass));
        assert(z.spec_dot(tangent) == zero);
        assert(z.spec_dot(tangent2) == zero);
        assert(z.spec_dot(normal) == zero);
        assert(z.spec_dot(normal2) == zero);
        lemma_zero_rules(dt);
        let one = Fixed { raw: SCALE };
        let im0 = one.spec_div(p0.mass);
        let im1 = one.spec_div(p1.mass);
        let pull = f10.spec_mul(im0.spec_add(im1));
        assert(f10.spec_mul(im1.spec_add(im0)) == pull);
        lemma_zero_rules(im0);
        lemma_zero_rules(im1);
        lemma_zero_rules(pull);
        let dv_n = pull.spec_mul(dt).spec_div(Fixed { raw: (2 * SCALE) as i64 });
        lemma_zero_rules(tangent.y);
        lemma_zero_rules(tangent2.y);
        assert(tangent.spec_scale(zero) == z);
        assert(tangent2.spec_scale(zero) == z);
        lemma_neg_mul(normal.x, dv_n);
        lemma_neg_mul(normal.y, dv_n);
        let r = normal.spec_scale(dv_n);
        lemma_zero_rules(r.x);
        lemma_zero_rules(r.y);
        lemma_zero_rules(r.x.spec_neg());
        lemma_zero_rules(r.y.spec_neg());
        assert(normal2.spec_scale(dv_n) == r.spec_neg());
        let dv_t = zero.spec_div(p0.mass).spec_mul(dt);
        let dv_t2 = zero.spec_div(p1.mass).spec_mul(dt);
        assert(dv_t == zero && dv_t2 == zero);
        let dvc = zero.spec_add(zero).spec_div(p0.mass.spec_add(p1.mass));
        let dvc2 = zero.spec_add(zero).spec_div(p1.mass.spec_add(p0.mass));
        assert(dvc == zero && dvc2 == zero);
        let n_part = dvc.spec_sub(zero.spec_mul(im1)).spec_add(zero.spec_mul(im0)).spec_add(pull);
        assert(n_part == pull);
        let n_part2 = dvc2.spec_sub(zero.spec_mul(im0)).spec_add(zero.spec_mul(im1)).spec_add(
            f10.spec_mul(im1.spec_add(im0)),
        );
        assert(n_part2 == pull);
        assert(delta_velocity_spec(p0, p1, dt, z, z, f10) == r.spec_add(z));
        assert(r.spec_add(z) == r);
        assert(delta_velocity_spec(p1, p0, dt, z, z, f10) == r.spec_neg().spec_add(z));
        assert(r.spec_neg().spec_add(z) == r.spec_neg());
    } else {
        assert(z.spec_neg() == z);
    }
}

/// Two particles with no external force and an interaction of the same
/// magnitude both ways receive opposite changes of velocity in a step.
pub proof fn lemma_two_particle_momentum_balance<Props>(
    ps: Seq<Particle<Props>>,
    forces: Seq<Seq<PairForces>>,
    dt: Fixed,
    f10: Fixed,
)
    requires
        ps.len() == 2,
        forces.len() == 2,
        forces[0].len() == 2,
        forces[1].len() == 2,
        forces[0][1] == (Vector2::spec_zero(), Vector2::spec_zero(), f10),
        forces[1][0] == (Vector2::spec_zero(), Vector2::spec_zero(), f10),
    ensures
        accumulated_dv(ps, 1, forces[1], dt, 2) == accumulated_dv(
            ps,
            0,
            forces[0],
            dt,
            2,
        ).spec_neg(),
{
    let z = Vector2::spec_zero();
    let d01 = delta_velocity_spec(ps[0], ps[1], dt, z, z, f10);
    let d10 = delta_velocity_spec(ps[1], ps[0], dt, z, z, f10);
    lemma_pair_momentum_balance(ps[0], ps[1], dt, f10);
    assert(accumulated_dv(ps, 0, forces[0], dt, 0) == z);
    assert(accumulated_dv(ps, 1, forces[1], dt, 0) == z);
    assert(accumulated_dv(ps, 0, forces[0], dt, 1) == z);
    assert(accumulated_dv(ps, 1, forces[1], dt, 1) == z.spec_add(d10));
    lemma_zero_rules(d01.x);
    lemma_zero_rules(d01.y);
    lemma_zero_rules(d10.x);
    lemma_zero_rules(d10.y);
    assert(z.spec_add(d01) == d01);
    assert(z.spec_add(d10) == d10);
}

} // verus!
