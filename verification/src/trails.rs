//! The trail buffer: every live segment of every particle, oldest first.

use crate::segment::{Seconds, TrailSegment, PLACEHOLDER_LIFETIME_MICROS};
use std::collections::VecDeque;
use vstd::prelude::*;

verus! {

/// Room that a new buffer reserves, in segments.
pub const RESERVED_SEGMENTS: usize = 16384;

/// The number of segments at the head of `segments` that have expired at `now`.
pub open spec fn expired_run(segments: Seq<TrailSegment>, now: u64) -> nat
    decreases segments.len(),
{
    if segments.len() == 0 || !segments[0].expired(now) {
        0
    } else {
        1 + expired_run(segments.drop_first(), now)
    }
}

/// What eviction at `now` leaves of `segments`: the expired run at the head
/// goes, but the newest segment stays whatever its age.
pub open spec fn after_eviction(segments: Seq<TrailSegment>, now: u64) -> Seq<TrailSegment> {
    let run = expired_run(segments, now);
    if run < segments.len() {
        segments.skip(run as int)
    } else if segments.len() > 0 {
        segments.skip(segments.len() - 1)
    } else {
        segments
    }
}

/// `segments` with the lifetime of each replaced by `lifetime`.
pub open spec fn with_lifetime(segments: Seq<TrailSegment>, lifetime: Seconds) -> Seq<TrailSegment> {
    Seq::new(segments.len(), |i: int| segments[i].with_lifetime(lifetime))
}

/// The contents of a buffer that was just made.
pub open spec fn seeded() -> Seq<TrailSegment> {
    seq![TrailSegment::placeholder()]
}

/// What clearing leaves of `segments`: the placeholder alone, whatever was there.
pub open spec fn cleared(segments: Seq<TrailSegment>) -> Seq<TrailSegment> {
    seeded()
}

/// Each segment's lifetime ends no later than that of the segment pushed
/// after it. This holds where time does not run backwards between pushes and
/// all lifetimes are equal.
pub open spec fn deadlines_ordered(segments: Seq<TrailSegment>) -> bool {
    forall|i: int, j: int|
        0 <= i <= j < segments.len() ==> segments[i].birth_time.micros + segments[i].lifetime.micros
            <= segments[j].birth_time.micros + segments[j].lifetime.micros
}

/// No segment was born before the one pushed ahead of it.
pub open spec fn chronological(segments: Seq<TrailSegment>) -> bool {
    forall|i: int, j: int|
        0 <= i <= j < segments.len() ==> segments[i].birth_time.micros
            <= segments[j].birth_time.micros
}

/// What holds of the buffer of a run whose clock never ran backwards and
/// has reached `now`, while new segments get the lifetime `lifetime`: the
/// segments lie in the order of their birth and of their deadlines, none was
/// born after `now`, and none outlives a segment that would be born now.
pub open spec fn settled(segments: Seq<TrailSegment>, now: u64, lifetime: Seconds) -> bool {
    &&& chronological(segments)
    &&& deadlines_ordered(segments)
    &&& forall|i: int|
        0 <= i < segments.len() ==> {
            &&& (#[trigger] segments[i]).birth_time.micros <= now
            &&& segments[i].birth_time.micros + segments[i].lifetime.micros <= now
                + lifetime.micros
        }
}

/// Every segment has the lifetime `lifetime`.
pub open spec fn uniform_lifetime(segments: Seq<TrailSegment>, lifetime: Seconds) -> bool {
    forall|i: int| 0 <= i < segments.len() ==> (#[trigger] segments[i]).lifetime == lifetime
}

/// The history of all trails, in the order in which the segments were pushed.
///
/// It always holds at least one segment, and every segment in it is well
/// formed.
#[derive(Clone, Debug)]
pub struct Trails {
    segments: VecDeque<TrailSegment>,
}

impl View for Trails {
    type V = Seq<TrailSegment>;

    closed spec fn view(&self) -> Seq<TrailSegment> {
        self.segments@
    }
}

impl Trails {
    /// What every buffer satisfies from the moment it is made: it is not
    /// empty, and each of its segments is well formed.
    pub open spec fn wf(&self) -> bool {
        &&& self@.len() >= 1
        &&& forall|i: int| 0 <= i < self@.len() ==> (#[trigger] self@[i]).wf()
    }

    /// A buffer that holds the placeholder alone.
    pub fn new() -> (trails: Trails)
        ensures
            trails.wf(),
            trails@ == seeded(),
    {
        let mut segments: VecDeque<TrailSegment> = VecDeque::with_capacity(RESERVED_SEGMENTS);
        segments.push_back(TrailSegment::default());
        assert(segments@ =~= seeded());
        Trails { segments }
    }

    /// The number of segments. A well-formed buffer never reports zero.
    pub fn len(&self) -> (n: usize)
        ensures
            n == self@.len(),
            self.wf() ==> n >= 1,
    {
        self.segments.len()
    }

    /// Appends `segment` at the tail.
    pub fn push_segment(&mut self, segment: TrailSegment)
        requires
            old(self).wf(),
            segment.wf(),
        ensures
            final(self).wf(),
            final(self)@ == old(self)@.push(segment),
    {
        self.segments.push_back(segment);
    }

    /// The segment at `index`, counted from the oldest, if there is one.
    pub fn get(&self, index: usize) -> (segment: Option<TrailSegment>)
        ensures
            segment == (if index < self@.len() {
                Some(self@[index as int])
            } else {
                None
            }),
    {
        if index < self.segments.len() {
            Some(self.segments[index])
        } else {
            None
        }
    }

    /// Removes from the head the segments that have expired at `now`, oldest
    /// first, up to the first one that has not. The newest segment is never
    /// removed, so the buffer cannot become empty.
    pub fn evict_expired(&mut self, now: u64)
        requires
            old(self).wf(),
        ensures
            final(self).wf(),
            final(self)@ == after_eviction(old(self)@, now),
    {
        while self.segments.len() > 1 && self.segments[0].is_expired(now)
            invariant
                self.wf(),
                after_eviction(self@, now) == after_eviction(old(self)@, now),
            decreases self@.len(),
        {
            proof {
                lemma_eviction_step(self@, now);
            }
            self.segments.pop_front();
        }
        proof {
            lemma_eviction_done(self@, now);
        }
    }

    /// Replaces the lifetime of every segment by `lifetime`.
    pub fn rewrite_lifetime(&mut self, lifetime: Seconds)
        requires
            old(self).wf(),
            lifetime.positive(),
        ensures
            final(self).wf(),
            final(self)@ == with_lifetime(old(self)@, lifetime),
    {
        let count = self.segments.len();
        let mut done: usize = 0;
        while done < count
            invariant
                done <= count,
                count == old(self)@.len(),
                self@ =~= old(self)@.skip(done as int) + with_lifetime(
                    old(self)@.take(done as int),
                    lifetime,
                ),
            decreases count - done,
        {
            if let Some(segment) = self.segments.pop_front() {
                self.segments.push_back(TrailSegment { lifetime, ..segment });
            }
            done += 1;
        }
        assert(self@ =~= with_lifetime(old(self)@, lifetime));
    }

    /// Empties the buffer and seeds it with the placeholder again.
    pub fn clear(&mut self)
        ensures
            final(self).wf(),
            final(self)@ == cleared(old(self)@),
    {
        self.segments.clear();
        self.segments.push_back(TrailSegment::default());
        assert(self.segments@ =~= seeded());
    }
}

/// The expired run is the longest run of expired segments at the head: it
/// lies within the buffer, every segment in it has expired, and the segment
/// that follows it, if there is one, has not.
pub proof fn lemma_expired_run(segments: Seq<TrailSegment>, now: u64)
    ensures
        expired_run(segments, now) <= segments.len(),
        forall|j: int| 0 <= j < expired_run(segments, now) ==> (#[trigger] segments[j]).expired(now),
        expired_run(segments, now) < segments.len() ==> !segments[expired_run(segments, now) as int].expired(
            now,
        ),
    decreases segments.len(),
{
    if segments.len() > 0 && segments[0].expired(now) {
        let rest = segments.drop_first();
        lemma_expired_run(rest, now);
        let run = expired_run(rest, now);
        assert forall|j: int| 0 <= j < run + 1 implies (#[trigger] segments[j]).expired(now) by {
            if j > 0 {
                assert(segments[j] == rest[j - 1]);
            }
        }
        if run < rest.len() {
            assert(segments[run as int + 1] == rest[run as int]);
        }
    }
}

/// Eviction keeps a suffix of the buffer: what it removes had expired, at
/// least one segment stays, and where more than one stays the oldest of them
/// has not expired.
pub proof fn lemma_eviction_removes_expired_head(segments: Seq<TrailSegment>, now: u64)
    requires
        segments.len() >= 1,
    ensures
        ({
            let kept = after_eviction(segments, now);
            let removed = segments.len() - kept.len();
            &&& 1 <= kept.len() <= segments.len()
            &&& kept == segments.skip(removed)
            &&& forall|j: int| 0 <= j < removed ==> (#[trigger] segments[j]).expired(now)
            &&& kept.len() > 1 ==> !kept[0].expired(now)
        }),
{
    lemma_expired_run(segments, now);
}

/// Where deadlines are ordered, eviction leaves no expired segment behind,
/// unless every segment had expired: then the newest alone stays.
pub proof fn lemma_eviction_leaves_live(segments: Seq<TrailSegment>, now: u64)
    requires
        segments.len() >= 1,
        deadlines_ordered(segments),
    ensures
        ({
            let kept = after_eviction(segments, now);
            ||| forall|i: int| 0 <= i < kept.len() ==> !(#[trigger] kept[i]).expired(now)
            ||| kept == seq![segments.last()] && forall|j: int|
                0 <= j < segments.len() ==> (#[trigger] segments[j]).expired(now)
        }),
{
    lemma_expired_run(segments, now);
    let run = expired_run(segments, now);
    let kept = after_eviction(segments, now);
    if run < segments.len() {
        assert forall|i: int| 0 <= i < kept.len() implies !(#[trigger] kept[i]).expired(now) by {
            assert(kept[i] == segments[run + i]);
            assert(!segments[run as int].expired(now));
        }
    } else {
        assert(kept =~= seq![segments.last()]);
    }
}

/// A well-formed segment has not expired at the moment of its birth.
pub proof fn lemma_newborn_is_live(segment: TrailSegment)
    requires
        segment.wf(),
    ensures
        !segment.expired(segment.birth_time.micros),
{
}

/// Segments pushed in the order of their birth with one lifetime have
/// ordered deadlines.
pub proof fn lemma_equal_lifetimes_order_deadlines(segments: Seq<TrailSegment>, lifetime: Seconds)
    requires
        chronological(segments),
        uniform_lifetime(segments, lifetime),
    ensures
        deadlines_ordered(segments),
{
}

/// A buffer that holds the placeholder alone is settled at any time, as long
/// as new segments live at least as long as the placeholder.
pub proof fn lemma_seeded_is_settled(now: u64, lifetime: Seconds)
    requires
        lifetime.micros >= PLACEHOLDER_LIFETIME_MICROS,
    ensures
        settled(seeded(), now, lifetime),
{
}

/// A settled buffer stays settled as time goes by, and eviction keeps it so.
pub proof fn lemma_eviction_keeps_settled(
    segments: Seq<TrailSegment>,
    now: u64,
    later: u64,
    lifetime: Seconds,
)
    requires
        settled(segments, now, lifetime),
        now <= later,
    ensures
        settled(segments, later, lifetime),
        settled(after_eviction(segments, later), later, lifetime),
{
    lemma_expired_run(segments, later);
}

/// Pushing a segment that is born now with the lifetime in force keeps a
/// settled buffer settled.
pub proof fn lemma_push_keeps_settled(
    segments: Seq<TrailSegment>,
    segment: TrailSegment,
    now: u64,
    lifetime: Seconds,
)
    requires
        settled(segments, now, lifetime),
        segment.birth_time.micros == now,
        segment.lifetime == lifetime,
    ensures
        settled(segments.push(segment), now, lifetime),
{
    let pushed = segments.push(segment);
    assert forall|i: int, j: int| 0 <= i <= j < pushed.len() implies pushed[i].birth_time.micros
        <= pushed[j].birth_time.micros && pushed[i].birth_time.micros
        + pushed[i].lifetime.micros <= pushed[j].birth_time.micros
        + pushed[j].lifetime.micros by {
        if i < segments.len() {
            assert(pushed[i] == segments[i]);
        }
        if j < segments.len() {
            assert(pushed[j] == segments[j]);
        }
    }
    assert forall|i: int| 0 <= i < pushed.len() implies (#[trigger] pushed[i]).birth_time.micros
        <= now && pushed[i].birth_time.micros + pushed[i].lifetime.micros <= now
        + lifetime.micros by {
        if i < segments.len() {
            assert(pushed[i] == segments[i]);
        }
    }
}

/// Rewriting every lifetime keeps a settled buffer settled, now for the new
/// lifetime.
pub proof fn lemma_rewrite_keeps_settled(
    segments: Seq<TrailSegment>,
    now: u64,
    in_force: Seconds,
    lifetime: Seconds,
)
    requires
        settled(segments, now, in_force),
    ensures
        settled(with_lifetime(segments, lifetime), now, lifetime),
{
    let rewritten = with_lifetime(segments, lifetime);
    assert forall|i: int, j: int| 0 <= i <= j < rewritten.len() implies rewritten[i].birth_time.micros
        <= rewritten[j].birth_time.micros && rewritten[i].birth_time.micros
        + rewritten[i].lifetime.micros <= rewritten[j].birth_time.micros
        + rewritten[j].lifetime.micros by {
        assert(segments[i].birth_time.micros <= segments[j].birth_time.micros);
    }
    assert forall|i: int| 0 <= i < rewritten.len() implies (#[trigger] rewritten[i]).birth_time.micros
        <= now && rewritten[i].birth_time.micros + rewritten[i].lifetime.micros <= now
        + lifetime.micros by {
        assert(segments[i].birth_time.micros <= now);
    }
}

/// Clearing twice leaves what clearing once leaves: the placeholder alone.
pub proof fn lemma_clear_is_idempotent(segments: Seq<TrailSegment>)
    ensures
        cleared(cleared(segments)) == cleared(segments),
        cleared(segments) == seq![TrailSegment::placeholder()],
        cleared(segments).len() == 1,
{
}

/// No operation empties a buffer that was not empty, and clearing leaves one
/// segment whatever was there.
pub proof fn lemma_never_empty(
    segments: Seq<TrailSegment>,
    segment: TrailSegment,
    lifetime: Seconds,
    now: u64,
)
    ensures
        cleared(segments).len() >= 1,
        segments.push(segment).len() >= 1,
        segments.len() >= 1 ==> after_eviction(segments, now).len() >= 1,
        segments.len() >= 1 ==> with_lifetime(segments, lifetime).len() >= 1,
{
    lemma_expired_run(segments, now);
}

/// After a rewrite every segment has the new lifetime and is otherwise what
/// it was, in the same place.
pub proof fn lemma_rewrite_reaches_every_segment(segments: Seq<TrailSegment>, lifetime: Seconds)
    ensures
        with_lifetime(segments, lifetime).len() == segments.len(),
        uniform_lifetime(with_lifetime(segments, lifetime), lifetime),
        forall|i: int|
            0 <= i < segments.len() ==> {
                let after = #[trigger] with_lifetime(segments, lifetime)[i];
                &&& after.lifetime == lifetime
                &&& after.position == segments[i].position
                &&& after.length == segments[i].length
                &&& after.rotation == segments[i].rotation
                &&& after.color == segments[i].color
                &&& after.birth_time == segments[i].birth_time
            },
{
}

/// Removing one expired segment from the head of a longer buffer does not
/// change what eviction leaves.
proof fn lemma_eviction_step(segments: Seq<TrailSegment>, now: u64)
    requires
        segments.len() > 1,
        segments[0].expired(now),
    ensures
        after_eviction(segments.drop_first(), now) == after_eviction(segments, now),
{
    let rest = segments.drop_first();
    let run = expired_run(rest, now);
    assert(expired_run(segments, now) == 1 + run);
    if run < rest.len() {
        assert(rest.skip(run as int) =~= segments.skip(run as int + 1));
    } else {
        assert(rest.skip(rest.len() - 1) =~= segments.skip(segments.len() - 1));
    }
}

/// Eviction leaves a buffer as it is when it holds one segment or its head
/// has not expired.
proof fn lemma_eviction_done(segments: Seq<TrailSegment>, now: u64)
    requires
        segments.len() >= 1,
        segments.len() == 1 || !segments[0].expired(now),
    ensures
        after_eviction(segments, now) == segments,
{
    let run = expired_run(segments, now);
    if segments[0].expired(now) {
        assert(expired_run(segments.drop_first(), now) == 0);
        assert(run == 1);
    }
    assert(segments.skip(0) =~= segments);
}

} // verus!
