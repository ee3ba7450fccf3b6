//! The particle simulator of one band: the update pass that ages, moves
//! and culls the particles, and the spawn pass that turns accumulated
//! fractional credit into new particles without passing the population cap.

use vstd::prelude::*;
use crate::fixed::{Fixed, ONE, floor_div, fx_add, fx_add_spec, fx_from_int};
use crate::particle::{
    DRAWS_PER_PARTICLE, FlameParticle, FrameEnv, MAX_BRIGHTNESS, MAX_DRIFT, MAX_LIFESPAN,
    MAX_VELOCITY_OFFSET, MIN_BRIGHTNESS, MIN_DRIFT, MIN_LIFESPAN, MIN_VELOCITY_OFFSET,
    SpawnSamples, advance, advanced, is_spawn, make_newborn, samples_of, spawned,
    survives_step,
};
use crate::rng::{SimpleRng, range_sample_spec, velocity_offset_sample_spec};
use crate::trig::TWO_PI;

verus! {

/// The most particles that one band ever holds.
pub const MAX_PARTICLES_PER_BAND: usize = 4096;

/// The particle population of one frequency band and its fractional spawn credit.
pub struct Band {
    pub particles: Vec<FlameParticle>,
    pub spawn_accum: Fixed,
}

/// The particles that are left of `ps` after one update pass, in their old order.
pub open spec fn survivors(ps: Seq<FlameParticle>, env: FrameEnv) -> Seq<FlameParticle>
    decreases ps.len(),
{
    if ps.len() == 0 {
        Seq::empty()
    } else {
        let rest = survivors(ps.drop_last(), env);
        let q = advanced(ps.last(), env);
        if q.survives(env.height) {
            rest.push(q)
        } else {
            rest
        }
    }
}

/// One time step, as a function of the particle.
pub open spec fn step_of(env: FrameEnv) -> spec_fn(FlameParticle) -> FlameParticle {
    |p: FlameParticle| advanced(p, env)
}

/// The survival test, as a function of the particle.
pub open spec fn keeps(height: usize) -> spec_fn(FlameParticle) -> bool {
    |q: FlameParticle| q.survives(height)
}

/// The survivors of an update pass are the particles, each advanced by one
/// step, that pass the survival test.
pub proof fn lemma_survivors_are_filtered(ps: Seq<FlameParticle>, env: FrameEnv)
    ensures
        survivors(ps, env) == ps.map_values(step_of(env)).filter(keeps(env.height)),
    decreases ps.len(),
{
    reveal(Seq::filter);
    if ps.len() > 0 {
        lemma_survivors_are_filtered(ps.drop_last(), env);
        assert(ps.map_values(step_of(env)).drop_last() =~= ps.drop_last().map_values(step_of(env)));
    }
}

/// Whole particles that are due once `credit` is added to `accum`.
pub open spec fn spawn_due(accum: Fixed, credit: Fixed) -> int {
    let total = fx_add_spec(accum, credit);
    if total > 0 {
        total as int / ONE as int
    } else {
        0
    }
}

/// The credit carried to the next frame: what is left of the total after
/// the whole particles are taken out.
pub open spec fn carried(accum: Fixed, credit: Fixed) -> Fixed {
    (fx_add_spec(accum, credit) - spawn_due(accum, credit) * ONE) as i64
}

/// Particles actually spawned: the due ones, as far as the cap leaves room.
pub open spec fn spawn_count(due: int, population: nat) -> nat {
    if population >= MAX_PARTICLES_PER_BAND {
        0
    } else if due > MAX_PARTICLES_PER_BAND - population {
        (MAX_PARTICLES_PER_BAND - population) as nat
    } else {
        due as nat
    }
}

/// The accumulator after a run of frames with the given credits.
pub open spec fn accum_after(accum: Fixed, credits: Seq<Fixed>) -> Fixed
    decreases credits.len(),
{
    if credits.len() == 0 {
        accum
    } else {
        carried(accum_after(accum, credits.drop_last()), credits.last())
    }
}

/// The particles that fall due over a run of frames with the given credits.
pub open spec fn total_due(accum: Fixed, credits: Seq<Fixed>) -> int
    decreases credits.len(),
{
    if credits.len() == 0 {
        0
    } else {
        total_due(accum, credits.drop_last()) + spawn_due(
            accum_after(accum, credits.drop_last()),
            credits.last(),
        )
    }
}

/// The sum of a run of credits.
pub open spec fn credit_sum(credits: Seq<Fixed>) -> int
    decreases credits.len(),
{
    if credits.len() == 0 {
        0
    } else {
        credit_sum(credits.drop_last()) + credits.last()
    }
}

/// Spawn credit is conserved: over any run of frames with credits that are
/// not negative, the particles that fell due and the fraction still in the
/// accumulator add up to the initial fraction plus all credit earned, so the
/// number due is the whole part of that sum and lags the credit by less
/// than one particle.
pub proof fn lemma_spawn_conservation(accum: Fixed, credits: Seq<Fixed>)
    requires
        0 <= accum < ONE,
        forall|i: int| 0 <= i < credits.len() ==> 0 <= #[trigger] credits[i],
        accum + credit_sum(credits) <= crate::fixed::FIXED_MAX,
    ensures
        total_due(accum, credits) * ONE + accum_after(accum, credits) == accum + credit_sum(credits),
        0 <= accum_after(accum, credits) < ONE,
        total_due(accum, credits) == (accum + credit_sum(credits)) / (ONE as int),
    decreases credits.len(),
{
    if credits.len() > 0 {
        let head = credits.drop_last();
        assert forall|i: int| 0 <= i < head.len() implies 0 <= #[trigger] head[i] by {
            assert(head[i] == credits[i]);
        }
        lemma_credit_sum_nonnegative(head);
        lemma_spawn_conservation(accum, head);
    }
}

/// A run of `n` frames that all earn the same credit.
pub open spec fn constant_credits(credit: Fixed, n: nat) -> Seq<Fixed> {
    Seq::new(n, |i: int| credit)
}

/// At a constant credit per frame the particles due after `n` frames are
/// the whole part of `n` times the credit, on top of the initial fraction.
pub proof fn lemma_constant_rate(accum: Fixed, credit: Fixed, n: nat)
    requires
        0 <= accum < ONE,
        0 <= credit,
        accum + n * credit <= crate::fixed::FIXED_MAX,
    ensures
        total_due(accum, constant_credits(credit, n)) == (accum + n * credit) / (ONE as int),
{
    lemma_constant_sum(credit, n);
    lemma_spawn_conservation(accum, constant_credits(credit, n));
}

/// The sum of `n` equal credits.
proof fn lemma_constant_sum(credit: Fixed, n: nat)
    ensures
        credit_sum(constant_credits(credit, n)) == n * credit,
    decreases n,
{
    if n > 0 {
        lemma_constant_sum(credit, (n - 1) as nat);
        assert(constant_credits(credit, n).drop_last() =~= constant_credits(
            credit,
            (n - 1) as nat,
        ));
        assert(n * credit == (n - 1) * credit + credit) by (nonlinear_arith);
    } else {
        assert(n * credit == 0) by (nonlinear_arith)
            requires
                n == 0,
        ;
    }
}

/// A sum of credits that are not negative is not negative.
pub proof fn lemma_credit_sum_nonnegative(credits: Seq<Fixed>)
    requires
        forall|i: int| 0 <= i < credits.len() ==> 0 <= #[trigger] credits[i],
    ensures
        0 <= credit_sum(credits),
    decreases credits.len(),
{
    if credits.len() > 0 {
        let head = credits.drop_last();
        assert forall|i: int| 0 <= i < head.len() implies 0 <= #[trigger] head[i] by {
            assert(head[i] == credits[i]);
        }
        lemma_credit_sum_nonnegative(head);
    }
}

/// Every particle of the sequence is alive.
pub open spec fn all_alive(ps: Seq<FlameParticle>) -> bool {
    forall|i: int| 0 <= i < ps.len() ==> (#[trigger] ps[i]).alive()
}

/// The survivors of an update pass are alive and no more than before.
pub proof fn lemma_survivors_alive(ps: Seq<FlameParticle>, env: FrameEnv)
    ensures
        survivors(ps, env).len() <= ps.len(),
        all_alive(survivors(ps, env)),
    decreases ps.len(),
{
    if ps.len() > 0 {
        lemma_survivors_alive(ps.drop_last(), env);
    }
}

/// Runs the update pass over `particles` in place: every particle is
/// advanced by one step and kept only if it survives.
pub fn update_particles(particles: &mut Vec<FlameParticle>, env: &FrameEnv)
    ensures
        final(particles)@ == survivors(old(particles)@, *env),
        final(particles)@.len() <= old(particles)@.len(),
        all_alive(final(particles)@),
{
    let n: usize = particles.len();
    let mut kept: usize = 0;
    let mut i: usize = 0;
    while i < n
        invariant
            kept <= i <= n,
            particles.len() == n,
            n == old(particles)@.len(),
            particles@.take(kept as int) == survivors(old(particles)@.take(i as int), *env),
            forall|j: int| i <= j < n ==> particles@[j] == old(particles)@[j],
        decreases n - i,
    {
        let q: FlameParticle = advance(particles[i], env);
        let ghost before = particles@;
        proof {
            assert(old(particles)@.take(i + 1).drop_last() =~= old(particles)@.take(i as int));
            assert(old(particles)@.take(i + 1).last() == old(particles)@[i as int]);
        }
        if survives_step(q, env.height) {
            particles.set(kept, q);
            proof {
                assert(particles@.take(kept + 1) =~= before.take(kept as int).push(q));
            }
            kept += 1;
        } else {
            proof {
                assert(particles@.take(kept as int) =~= before.take(kept as int));
            }
        }
        i += 1;
    }
    particles.truncate(kept);
    proof {
        assert(old(particles)@.take(n as int) =~= old(particles)@);
        lemma_survivors_alive(old(particles)@, *env);
    }
}

/// Draws the attributes of one new particle from `rng` and makes the particle.
pub fn spawn_from(rng: &mut SimpleRng, env: &FrameEnv) -> (p: FlameParticle)
    ensures
        is_spawn(p, *env),
        p.alive(),
        p.age == 0,
        final(rng).seed() == old(rng).seed(),
{
    let lifespan: i64 = rng.next_range(MIN_LIFESPAN, MAX_LIFESPAN);
    let x: i64 = rng.next_range(0, fx_from_int(env.width));
    let velocity_offset: i64 = rng.next_velocity_offset(MIN_VELOCITY_OFFSET, MAX_VELOCITY_OFFSET);
    let velocity_x: i64 = rng.next_range(MIN_DRIFT, MAX_DRIFT);
    let size: i64 = rng.next_range(env.min_size, env.max_size);
    let wobble_phase: i64 = rng.next_range(0, TWO_PI);
    let turbulence_phase: i64 = rng.next_range(0, TWO_PI);
    let initial_brightness: i64 = rng.next_range(MIN_BRIGHTNESS, MAX_BRIGHTNESS);
    let samples = SpawnSamples {
        lifespan,
        x,
        velocity_offset,
        velocity_x,
        size,
        wobble_phase,
        turbulence_phase,
        initial_brightness,
    };
    proof {
        let draws = seq![
            choose|bits: u32| lifespan == range_sample_spec(bits, MIN_LIFESPAN, MAX_LIFESPAN),
            choose|bits: u32| x == range_sample_spec(bits, 0, fx_from_int(env.width)),
            choose|bits: u32|
                velocity_offset == velocity_offset_sample_spec(
                    bits,
                    MIN_VELOCITY_OFFSET,
                    MAX_VELOCITY_OFFSET,
                ),
            choose|bits: u32| velocity_x == range_sample_spec(bits, MIN_DRIFT, MAX_DRIFT),
            choose|bits: u32| size == range_sample_spec(bits, env.min_size, env.max_size),
            choose|bits: u32| wobble_phase == range_sample_spec(bits, 0, TWO_PI),
            choose|bits: u32| turbulence_phase == range_sample_spec(bits, 0, TWO_PI),
            choose|bits: u32|
                initial_brightness == range_sample_spec(bits, MIN_BRIGHTNESS, MAX_BRIGHTNESS),
        ];
        assert(draws.len() == DRAWS_PER_PARTICLE);
        assert(samples == samples_of(draws, *env));
        assert(is_spawn(spawned(draws, *env), *env));
    }
    make_newborn(samples, env)
}

impl Band {
    /// At most `MAX_PARTICLES_PER_BAND` particles, all of them alive.
    pub open spec fn wf(self) -> bool {
        &&& self.particles@.len() <= MAX_PARTICLES_PER_BAND
        &&& all_alive(self.particles@)
    }

    /// An empty band with no credit.
    pub fn new() -> (b: Band)
        ensures
            b.wf(),
            b.particles@.len() == 0,
            b.spawn_accum == 0,
    {
        Band { particles: Vec::new(), spawn_accum: 0 }
    }

    /// The update pass: the band keeps exactly the survivors of its particles.
    pub fn update(&mut self, env: &FrameEnv)
        ensures
            final(self).particles@ == survivors(old(self).particles@, *env),
            final(self).spawn_accum == old(self).spawn_accum,
            final(self).particles@.len() <= old(self).particles@.len(),
            old(self).wf() ==> final(self).wf(),
            all_alive(final(self).particles@),
    {
        update_particles(&mut self.particles, env);
    }

    /// The spawn pass: the frame's credit is added to the accumulator, its
    /// whole part is taken out as the number of particles due, and as many
    /// of them as the cap leaves room for are appended to the band.
    pub fn spawn(&mut self, env: &FrameEnv, rng: &mut SimpleRng)
        ensures
            final(self).spawn_accum == carried(old(self).spawn_accum, env.spawn_credit),
            final(self).particles@.len() == old(self).particles@.len() + spawn_count(
                spawn_due(old(self).spawn_accum, env.spawn_credit),
                old(self).particles@.len(),
            ),
            old(self).particles@.len() <= MAX_PARTICLES_PER_BAND ==> final(self).particles@.len()
                <= MAX_PARTICLES_PER_BAND,
            final(self).particles@.take(old(self).particles@.len() as int) == old(self).particles@,
            forall|i: int|
                old(self).particles@.len() <= i < final(self).particles@.len() ==> {
                    &&& is_spawn(#[trigger] final(self).particles@[i], *env)
                    &&& final(self).particles@[i].age == 0
                    &&& final(self).particles@[i].alive()
                },
            old(self).wf() ==> final(self).wf(),
            final(rng).seed() == old(rng).seed(),
    {
        let total: i64 = fx_add(self.spawn_accum, env.spawn_credit);
        let due: i64 = if total > 0 { floor_div(total as i128, ONE as i128) as i64 } else { 0 };
        self.spawn_accum = total - due * ONE;
        let population: usize = self.particles.len();
        let room: usize = if population >= MAX_PARTICLES_PER_BAND {
            0
        } else {
            MAX_PARTICLES_PER_BAND - population
        };
        let count: usize = if due > room as i64 { room } else { due as usize };
        let mut made: usize = 0;
        while made < count
            invariant
                made <= count,
                count <= MAX_PARTICLES_PER_BAND,
                rng.seed() == old(rng).seed(),
                population <= MAX_PARTICLES_PER_BAND ==> population + count
                    <= MAX_PARTICLES_PER_BAND,
                population == old(self).particles@.len(),
                self.particles@.len() == population + made,
                self.spawn_accum == carried(old(self).spawn_accum, env.spawn_credit),
                self.particles@.take(population as int) == old(self).particles@,
                forall|i: int|
                    population <= i < self.particles@.len() ==> {
                        &&& is_spawn(#[trigger] self.particles@[i], *env)
                        &&& self.particles@[i].age == 0
                        &&& self.particles@[i].alive()
                    },
            decreases count - made,
        {
            let p: FlameParticle = spawn_from(rng, env);
            let ghost before = self.particles@;
            self.particles.push(p);
            proof {
                assert(self.particles@.take(population as int) =~= before.take(population as int));
            }
            made += 1;
        }
        proof {
            if old(self).wf() {
                assert forall|i: int| 0 <= i < self.particles@.len() implies (
                #[trigger] self.particles@[i]).alive() by {
                    if i < population {
                        assert(self.particles@[i] == self.particles@.take(population as int)[i]);
                    }
                }
            }
        }
    }
}

} // verus!
