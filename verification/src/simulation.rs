//! The run: the particles that emit, the buffer they feed, and the three
//! things that happen to them: clear, start and tick.
//!
//! The equations of motion are integrated in single precision by the caller.
//! A tick takes for each particle where it moved to, how far and in which
//! direction, and does the bookkeeping that follows.

use crate::segment::{Seconds, TrailSegment};
use crate::trails::{
    after_eviction, cleared, deadlines_ordered, lemma_eviction_keeps_settled,
    lemma_eviction_leaves_live, settled, uniform_lifetime, with_lifetime, Trails,
};
use vstd::prelude::*;

verus! {

/// Thousandths of a degree in a full turn of the color wheel.
pub const FULL_TURN: u32 = 360_000;

/// A particle: where it is and the color of the trail it leaves, as
/// single-precision patterns. Its place in the list of particles is its
/// identity.
#[derive(Clone, Copy, Debug)]
pub struct Particle {
    pub position: [u32; 3],
    pub color: [u32; 3],
}

/// What one particle did in one tick, as single-precision patterns: its new
/// position, the distance it travelled, and the rotation that turns the
/// reference axis onto its direction of travel. A particle that did not move
/// has no direction.
#[derive(Clone, Copy, Debug)]
pub struct Step {
    pub position: [u32; 3],
    pub length: u32,
    pub direction: Option<[u32; 4]>,
}

/// The segments that one tick appends: one for each particle, in the order of
/// the particles. Each starts where its particle was before the tick, has the
/// color of its particle, is born now and gets the lifetime in force.
pub open spec fn emitted(
    particles: Seq<Particle>,
    steps: Seq<Step>,
    now: Seconds,
    lifetime: Seconds,
) -> Seq<TrailSegment> {
    Seq::new(
        particles.len(),
        |i: int|
            TrailSegment::encoded(
                particles[i].position,
                steps[i].length,
                steps[i].direction,
                particles[i].color,
                now,
                lifetime,
            ),
    )
}

/// The particles after a tick: each where its step put it, with its color.
pub open spec fn moved(particles: Seq<Particle>, steps: Seq<Step>) -> Seq<Particle> {
    Seq::new(
        particles.len(),
        |i: int| Particle { position: steps[i].position, color: particles[i].color },
    )
}

/// The buffer after the configured lifetime was noted: rewritten where the
/// lifetime differs from the one in force, untouched where it does not.
pub open spec fn applied_lifetime(
    segments: Seq<TrailSegment>,
    in_force: Seconds,
    lifetime: Seconds,
) -> Seq<TrailSegment> {
    if lifetime == in_force {
        segments
    } else {
        with_lifetime(segments, lifetime)
    }
}

/// One particle to start: its number, from one, and its hue in thousandths
/// of a degree.
#[derive(Clone, Copy, Debug, PartialEq, Eq)]
pub struct Seed {
    pub index: u16,
    pub hue: u32,
}

/// The hue of particle `index` of `count`, in thousandths of a degree: the
/// particles divide the color wheel evenly, and the last one closes it.
pub open spec fn hue_of(index: int, count: int) -> int {
    index * FULL_TURN / count
}

/// The seeds of `count` particles, numbered from one.
pub open spec fn seeds_of(count: u16) -> Seq<Seed> {
    Seq::new(
        count as nat,
        |i: int| Seed { index: (i + 1) as u16, hue: hue_of(i + 1, count as int) as u32 },
    )
}

/// The particles that a start spawns, in order. The caller places particle
/// `index` at `index` times the configured distance on each axis and gives it
/// the color of its hue.
pub fn spawn_plan(count: u16) -> (seeds: Vec<Seed>)
    ensures
        seeds@ == seeds_of(count),
{
    let mut seeds: Vec<Seed> = Vec::new();
    let mut done: u16 = 0;
    while done < count
        invariant
            done <= count,
            seeds@ =~= seeds_of(count).take(done as int),
        decreases count - done,
    {
        let index: u16 = done + 1;
        let turn: u64 = index as u64 * FULL_TURN as u64;
        let hue: u64 = turn / count as u64;
        proof {
            lemma_hue_in_turn(index as int, count as int);
        }
        seeds.push(Seed { index, hue: hue as u32 });
        done = index;
    }
    seeds
}

/// The state of a run.
#[derive(Clone, Debug)]
pub struct Simulation {
    particles: Vec<Particle>,
    trails: Trails,
    lifetime: Seconds,
}

impl Simulation {
    /// The particles, in the order in which they were started.
    pub closed spec fn particles(&self) -> Seq<Particle> {
        self.particles@
    }

    /// The segments of the trail buffer, oldest first.
    pub closed spec fn segments(&self) -> Seq<TrailSegment> {
        self.trails@
    }

    /// The lifetime that new segments get.
    pub closed spec fn lifetime(&self) -> Seconds {
        self.lifetime
    }

    /// What every run satisfies from the moment it is made: its buffer is not
    /// empty, and the lifetime in force and that of every segment are
    /// positive.
    pub closed spec fn wf(&self) -> bool {
        &&& self.trails.wf()
        &&& self.lifetime.positive()
    }

    /// A well-formed run has a segment in its buffer, and every lifetime in it
    /// is positive.
    pub proof fn lemma_wf(&self)
        requires
            self.wf(),
        ensures
            self.segments().len() >= 1,
            self.lifetime().positive(),
            forall|i: int| 0 <= i < self.segments().len() ==> (#[trigger] self.segments()[i]).wf(),
    {
    }

    /// A run with no particles and a fresh buffer.
    pub fn new(lifetime: Seconds) -> (simulation: Simulation)
        requires
            lifetime.positive(),
        ensures
            simulation.wf(),
            simulation.particles() == Seq::<Particle>::empty(),
            simulation.segments() == seq![TrailSegment::placeholder()],
            simulation.lifetime() == lifetime,
    {
        Simulation { particles: Vec::new(), trails: Trails::new(), lifetime }
    }

    /// The number of particles.
    pub fn particle_count(&self) -> (count: usize)
        ensures
            count == self.particles().len(),
    {
        self.particles.len()
    }

    /// The particle at `index`, if there is one.
    pub fn particle(&self, index: usize) -> (particle: Option<Particle>)
        ensures
            particle == (if index < self.particles().len() {
                Some(self.particles()[index as int])
            } else {
                None
            }),
    {
        if index < self.particles.len() {
            Some(self.particles[index])
        } else {
            None
        }
    }

    /// The trail buffer.
    pub fn trails(&self) -> (trails: &Trails)
        ensures
            trails@ == self.segments(),
            self.wf() ==> trails.wf(),
    {
        &self.trails
    }

    /// The lifetime that new segments get.
    pub fn current_lifetime(&self) -> (lifetime: Seconds)
        ensures
            lifetime == self.lifetime(),
    {
        self.lifetime
    }

    /// Removes every particle and resets the buffer to the placeholder. The
    /// lifetime in force stays.
    pub fn clear(&mut self)
        requires
            old(self).wf(),
        ensures
            final(self).wf(),
            final(self).particles() == Seq::<Particle>::empty(),
            final(self).segments() == cleared(old(self).segments()),
            final(self).lifetime() == old(self).lifetime(),
    {
        self.particles.clear();
        self.trails.clear();
    }

    /// Adds `seeds` to the particles, behind those that are there. The buffer
    /// is not touched.
    pub fn start(&mut self, seeds: Vec<Particle>)
        requires
            old(self).wf(),
        ensures
            final(self).wf(),
            final(self).particles() == old(self).particles() + seeds@,
            final(self).segments() == old(self).segments(),
            final(self).lifetime() == old(self).lifetime(),
    {
        let mut seeds = seeds;
        self.particles.append(&mut seeds);
    }

    /// Takes note of the configured lifetime. Where it differs from the one in
    /// force, every segment in the buffer is rewritten to it and new segments
    /// get it from now on. Where it does not, nothing changes.
    pub fn apply_lifetime(&mut self, lifetime: Seconds)
        requires
            old(self).wf(),
            lifetime.positive(),
        ensures
            final(self).wf(),
            final(self).particles() == old(self).particles(),
            final(self).lifetime() == lifetime,
            final(self).segments() == applied_lifetime(
                old(self).segments(),
                old(self).lifetime(),
                lifetime,
            ),
    {
        if lifetime.micros != self.lifetime.micros || lifetime.bits != self.lifetime.bits {
            self.trails.rewrite_lifetime(lifetime);
            self.lifetime = lifetime;
        }
    }

    /// One physics tick at the time `now`. First the expired segments leave the
    /// head of the buffer. Then each particle, in order, leaves a segment
    /// behind and moves to where its step puts it. Returns the number of
    /// segments in the buffer after the tick.
    pub fn tick(&mut self, now: Seconds, steps: &Vec<Step>) -> (count: usize)
        requires
            old(self).wf(),
            steps@.len() == old(self).particles().len(),
        ensures
            final(self).wf(),
            final(self).segments() == after_eviction(old(self).segments(), now.micros) + emitted(
                old(self).particles(),
                steps@,
                now,
                old(self).lifetime(),
            ),
            final(self).particles() == moved(old(self).particles(), steps@),
            final(self).lifetime() == old(self).lifetime(),
            count == final(self).segments().len(),
    {
        self.trails.evict_expired(now.micros);
        let ghost kept = self.trails@;
        let total = self.particles.len();
        let mut index: usize = 0;
        while index < total
            invariant
                index <= total,
                total == steps@.len(),
                total == old(self).particles().len(),
                self.particles@.len() == total,
                self.lifetime == old(self).lifetime,
                self.wf(),
                self.trails@ =~= kept + emitted(
                    old(self).particles(),
                    steps@,
                    now,
                    self.lifetime,
                ).take(index as int),
                forall|i: int|
                    0 <= i < index ==> self.particles@[i] == moved(
                        old(self).particles(),
                        steps@,
                    )[i],
                forall|i: int| index <= i < total ==> self.particles@[i] == old(self).particles()[i],
            decreases total - index,
        {
            let particle = self.particles[index];
            let step = steps[index];
            let segment = TrailSegment::encode(
                particle.position,
                step.length,
                step.direction,
                particle.color,
                now,
                self.lifetime,
            );
            self.trails.push_segment(segment);
            self.particles[index] = Particle { position: step.position, color: particle.color };
            index += 1;
        }
        assert(self.particles@ =~= moved(old(self).particles(), steps@));
        self.trails.len()
    }
}

/// A hue lies on the wheel: above zero and at most a full turn, which the
/// last particle has.
pub proof fn lemma_hue_in_turn(index: int, count: int)
    requires
        1 <= index <= count <= u16::MAX,
    ensures
        0 < hue_of(index, count) <= FULL_TURN,
        hue_of(count, count) == FULL_TURN,
{
    let turn = FULL_TURN as int;
    assert(index * turn / count <= turn) by (nonlinear_arith)
        requires
            1 <= index <= count,
            turn >= 0,
    ;
    assert(count * turn / count == turn) by (nonlinear_arith)
        requires
            count >= 1,
    ;
    assert(index * turn / count >= index) by (nonlinear_arith)
        requires
            1 <= index,
            1 <= count <= turn,
    ;
}

/// No two particles of one start share a hue: the hues grow with the number
/// of the particle, and neighbours are a `count`-th of the wheel apart, up to
/// the rounding to a thousandth of a degree.
pub proof fn lemma_hues_are_spread(first: int, second: int, count: int)
    requires
        1 <= first < second <= count <= u16::MAX,
    ensures
        hue_of(first, count) < hue_of(second, count),
        second == first + 1 ==> FULL_TURN as int / count <= hue_of(second, count) - hue_of(
            first,
            count,
        ) <= FULL_TURN as int / count + 1,
{
    let turn = FULL_TURN as int;
    let c = count;
    let a = first * turn;
    let b = second * turn;
    assert(b - a == (second - first) * turn) by (nonlinear_arith)
        requires
            b == second * turn,
            a == first * turn,
    ;
    assert((second - first) * turn >= turn) by (nonlinear_arith)
        requires
            second - first >= 1,
            turn >= 0,
    ;
    assert(b / c >= a / c + 1) by (nonlinear_arith)
        requires
            b >= a + c,
            c > 0,
            a >= 0,
    ;
    if second == first + 1 {
        assert(b == a + turn) by (nonlinear_arith)
            requires
                b == second * turn,
                a == first * turn,
                second == first + 1,
        ;
        assert(turn / c <= (a + turn) / c - a / c <= turn / c + 1) by (nonlinear_arith)
            requires
                c > 0,
                a >= 0,
                turn >= 0,
        ;
    }
}

/// A tick appends one segment for each particle. Each of them is born at the
/// time of the tick with the lifetime in force, starts where its particle
/// was and has its color.
pub proof fn lemma_tick_emits_one_per_particle(
    particles: Seq<Particle>,
    steps: Seq<Step>,
    now: Seconds,
    lifetime: Seconds,
)
    ensures
        emitted(particles, steps, now, lifetime).len() == particles.len(),
        forall|i: int|
            0 <= i < particles.len() ==> {
                let segment = #[trigger] emitted(particles, steps, now, lifetime)[i];
                &&& segment.birth_time == now
                &&& segment.lifetime == lifetime
                &&& segment.position == particles[i].position
                &&& segment.color == particles[i].color
                &&& segment.length == steps[i].length
            },
{
}

/// Where the deadlines in the buffer are ordered and its newest segment has
/// not expired, a tick leaves no expired segment in the buffer.
pub proof fn lemma_tick_leaves_live(
    segments: Seq<TrailSegment>,
    particles: Seq<Particle>,
    steps: Seq<Step>,
    now: Seconds,
    lifetime: Seconds,
)
    requires
        segments.len() >= 1,
        deadlines_ordered(segments),
        !segments.last().expired(now.micros),
        lifetime.micros > 0,
    ensures
        forall|i: int|
            0 <= i < (after_eviction(segments, now.micros) + emitted(
                particles,
                steps,
                now,
                lifetime,
            )).len() ==> !(#[trigger] (after_eviction(segments, now.micros) + emitted(
                particles,
                steps,
                now,
                lifetime,
            ))[i]).expired(now.micros),
{
    lemma_eviction_leaves_live(segments, now.micros);
    let kept = after_eviction(segments, now.micros);
    assert(segments.last() == segments[segments.len() - 1]);
    assert(forall|i: int| 0 <= i < kept.len() ==> !(#[trigger] kept[i]).expired(now.micros));
}

/// A tick at a time not before the last one keeps a settled buffer settled.
pub proof fn lemma_tick_keeps_settled(
    segments: Seq<TrailSegment>,
    particles: Seq<Particle>,
    steps: Seq<Step>,
    before: u64,
    now: Seconds,
    lifetime: Seconds,
)
    requires
        settled(segments, before, lifetime),
        before <= now.micros,
    ensures
        settled(
            after_eviction(segments, now.micros) + emitted(particles, steps, now, lifetime),
            now.micros,
            lifetime,
        ),
{
    lemma_eviction_keeps_settled(segments, before, now.micros, lifetime);
    let kept = after_eviction(segments, now.micros);
    let after = kept + emitted(particles, steps, now, lifetime);
    assert forall|i: int| 0 <= i < after.len() implies (#[trigger] after[i]).birth_time.micros
        <= now.micros && after[i].birth_time.micros + after[i].lifetime.micros <= now.micros
        + lifetime.micros && (i >= kept.len() ==> after[i].birth_time.micros == now.micros
        && after[i].lifetime == lifetime) by {
        if i < kept.len() {
            assert(after[i] == kept[i]);
        }
    }
    assert forall|i: int, j: int| 0 <= i <= j < after.len() implies after[i].birth_time.micros
        <= after[j].birth_time.micros && after[i].birth_time.micros + after[i].lifetime.micros
        <= after[j].birth_time.micros + after[j].lifetime.micros by {
        if j < kept.len() {
            assert(after[i] == kept[i]);
            assert(after[j] == kept[j]);
        }
    }
}

/// A run with at least one particle holds no expired segment after a tick
/// that follows the tick before it by less than the lifetime in force.
pub proof fn lemma_steady_run_holds_only_live(
    segments: Seq<TrailSegment>,
    particles: Seq<Particle>,
    first_steps: Seq<Step>,
    second_steps: Seq<Step>,
    before: u64,
    first: Seconds,
    second: Seconds,
    lifetime: Seconds,
)
    requires
        segments.len() >= 1,
        particles.len() >= 1,
        settled(segments, before, lifetime),
        before <= first.micros <= second.micros,
        second.micros - first.micros < lifetime.micros,
    ensures
        ({
            let between = after_eviction(segments, first.micros) + emitted(
                particles,
                first_steps,
                first,
                lifetime,
            );
            let after = after_eviction(between, second.micros) + emitted(
                moved(particles, first_steps),
                second_steps,
                second,
                lifetime,
            );
            forall|i: int| 0 <= i < after.len() ==> !(#[trigger] after[i]).expired(second.micros)
        }),
{
    let sent = emitted(particles, first_steps, first, lifetime);
    let between = after_eviction(segments, first.micros) + sent;
    lemma_tick_keeps_settled(segments, particles, first_steps, before, first, lifetime);
    assert(between.last() == sent[sent.len() - 1]);
    lemma_tick_leaves_live(
        between,
        moved(particles, first_steps),
        second_steps,
        second,
        lifetime,
    );
}

/// A change of the configured lifetime reaches every segment: once it was
/// noted, each segment in the buffer has the new lifetime.
pub proof fn lemma_changed_lifetime_reaches_every_segment(
    segments: Seq<TrailSegment>,
    in_force: Seconds,
    lifetime: Seconds,
)
    requires
        lifetime != in_force,
    ensures
        applied_lifetime(segments, in_force, lifetime).len() == segments.len(),
        uniform_lifetime(applied_lifetime(segments, in_force, lifetime), lifetime),
{
}

} // verus!
