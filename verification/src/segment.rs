//! One trail segment: the motion of one particle over one physics tick.

use vstd::prelude::*;

verus! {

/// Lifetime of the placeholder segment in microseconds: a hundredth of a second.
pub const PLACEHOLDER_LIFETIME_MICROS: u64 = 10_000;

/// Single-precision pattern of `0.01`, the placeholder's lifetime in seconds.
pub const PLACEHOLDER_LIFETIME_BITS: u32 = 0x3C23_D70A;

/// Single-precision pattern of `1.0`.
pub const ONE_BITS: u32 = 0x3F80_0000;

/// Single-precision pattern of positive infinity. The patterns between zero
/// and this one are those of the finite numbers above zero.
pub const INFINITY_BITS: u32 = 0x7F80_0000;

/// A reading of the simulation clock, or a span on it, in seconds.
///
/// It is kept in two forms. `micros` counts whole microseconds and is what
/// the buffer's rules compare. `bits` is the single-precision pattern of the
/// same time in seconds and is what the instance record carries to the
/// shader. Whoever builds a value supplies both; this crate copies `bits`
/// and never derives one form from the other.
#[derive(Clone, Copy, Debug)]
pub struct Seconds {
    pub micros: u64,
    pub bits: u32,
}

impl Seconds {
    /// A span is positive when it is above zero in both forms: it counts at
    /// least one microsecond, and its pattern is that of a finite number
    /// above zero.
    pub open spec fn positive(self) -> bool {
        self.micros > 0 && 0 < self.bits < INFINITY_BITS
    }

    /// Whether the span is positive.
    pub fn is_positive(&self) -> (positive: bool)
        ensures
            positive == self.positive(),
    {
        self.micros > 0 && 0 < self.bits && self.bits < INFINITY_BITS
    }
}

/// One segment of a trail. It is not changed after it was made, but for its
/// lifetime when the configured lifetime changes.
///
/// `position`, `length`, `rotation` and `color` hold single-precision
/// patterns: the origin, the distance travelled, the unit quaternion
/// `[x, y, z, w]` that turns the reference axis onto the direction of travel,
/// and the red, green and blue of the trail.
#[derive(Clone, Copy, Debug)]
pub struct TrailSegment {
    pub position: [u32; 3],
    pub length: u32,
    pub rotation: [u32; 4],
    pub color: [u32; 3],
    pub birth_time: Seconds,
    pub lifetime: Seconds,
}

/// The quaternion that turns nothing: `[0, 0, 0, 1]`.
pub open spec fn identity_rotation() -> [u32; 4] {
    [0u32, 0u32, 0u32, ONE_BITS]
}

impl TrailSegment {
    /// A segment is well formed when its lifetime is positive, so that the
    /// ratio of age to lifetime is defined wherever it is computed.
    pub open spec fn wf(self) -> bool {
        self.lifetime.positive()
    }

    /// The age of the segment at `now`, negative before its birth.
    pub open spec fn age(self, now: u64) -> int {
        now - self.birth_time.micros
    }

    /// A segment has expired once its age has reached its lifetime.
    pub open spec fn expired(self, now: u64) -> bool {
        self.age(now) >= self.lifetime.micros
    }

    /// The same segment with another lifetime.
    pub open spec fn with_lifetime(self, lifetime: Seconds) -> TrailSegment {
        TrailSegment { lifetime, ..self }
    }

    /// The segment that seeds an empty buffer: all zero, born at time zero,
    /// with a small positive lifetime.
    pub open spec fn placeholder() -> TrailSegment {
        TrailSegment {
            position: [0u32, 0u32, 0u32],
            length: 0,
            rotation: [0u32, 0u32, 0u32, 0u32],
            color: [0u32, 0u32, 0u32],
            birth_time: Seconds { micros: 0, bits: 0 },
            lifetime: Seconds {
                micros: PLACEHOLDER_LIFETIME_MICROS,
                bits: PLACEHOLDER_LIFETIME_BITS,
            },
        }
    }

    /// The segment that a particle leaves behind: it starts where the particle
    /// was, is as long as the particle moved and points where it moved. A
    /// particle that did not move has no direction, and its segment gets the
    /// identity rotation.
    pub open spec fn encoded(
        origin: [u32; 3],
        length: u32,
        direction: Option<[u32; 4]>,
        color: [u32; 3],
        birth_time: Seconds,
        lifetime: Seconds,
    ) -> TrailSegment {
        TrailSegment {
            position: origin,
            length,
            rotation: match direction {
                Some(rotation) => rotation,
                None => identity_rotation(),
            },
            color,
            birth_time,
            lifetime,
        }
    }

    /// Builds the segment of one particle for one tick.
    pub fn encode(
        origin: [u32; 3],
        length: u32,
        direction: Option<[u32; 4]>,
        color: [u32; 3],
        birth_time: Seconds,
        lifetime: Seconds,
    ) -> (segment: TrailSegment)
        ensures
            segment == TrailSegment::encoded(origin, length, direction, color, birth_time, lifetime),
    {
        let rotation = match direction {
            Some(rotation) => rotation,
            None => {
                let identity: [u32; 4] = [0, 0, 0, ONE_BITS];
                assert(identity@ =~= identity_rotation()@);
                identity
            },
        };
        TrailSegment { position: origin, length, rotation, color, birth_time, lifetime }
    }

    /// Whether the segment has expired at `now`.
    pub fn is_expired(&self, now: u64) -> (expired: bool)
        ensures
            expired == self.expired(now),
    {
        now >= self.birth_time.micros && now - self.birth_time.micros >= self.lifetime.micros
    }
}

impl Default for TrailSegment {
    /// The placeholder segment.
    fn default() -> (segment: TrailSegment)
        ensures
            segment == TrailSegment::placeholder(),
    {
        let zero3: [u32; 3] = [0, 0, 0];
        let zero4: [u32; 4] = [0, 0, 0, 0];
        let segment = TrailSegment {
            position: zero3,
            length: 0,
            rotation: zero4,
            color: zero3,
            birth_time: Seconds { micros: 0, bits: 0 },
            lifetime: Seconds {
                micros: PLACEHOLDER_LIFETIME_MICROS,
                bits: PLACEHOLDER_LIFETIME_BITS,
            },
        };
        assert(segment.position@ =~= TrailSegment::placeholder().position@);
        assert(segment.rotation@ =~= TrailSegment::placeholder().rotation@);
        assert(segment.color@ =~= TrailSegment::placeholder().color@);
        segment
    }
}

} // verus!
