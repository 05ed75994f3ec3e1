//! The settings that a user tunes while the simulation runs.

use crate::segment::{
    Seconds, INFINITY_BITS, PLACEHOLDER_LIFETIME_BITS, PLACEHOLDER_LIFETIME_MICROS,
};
use vstd::prelude::*;

verus! {

/// Microseconds in a tenth of a second, the unit of the lifetime setting.
pub const MICROS_PER_TENTH: u64 = 100_000;

/// The settings. The core reads them each tick and writes none of them but
/// `trail_segment_count`.
///
/// `initial_distance`, `sigma`, `rho` and `beta` hold single-precision
/// patterns.
#[derive(Clone, Copy, Debug)]
pub struct Configuration {
    pub show_diagnostics: bool,
    pub rotate_camera: bool,
    pub camera_speed: i32,
    /// Physics ticks per second.
    pub physics_refresh_rate: u16,
    /// How long a segment stays visible, in tenths of a second.
    pub trail_lifetime: u16,
    pub num_of_trails: u16,
    /// Distance between the start positions of neighbouring particles.
    pub initial_distance: u32,
    /// Integration step in ten-thousandths.
    pub delta_t: u8,
    pub sigma: u32,
    pub rho: u32,
    pub beta: u32,
    /// Telemetry: the number of segments in the buffer after the last tick.
    pub trail_segment_count: usize,
}

impl Configuration {
    /// The settings a run starts with: ten particles a hundredth apart, a
    /// trail of ten seconds, 120 ticks a second, a step of 0.005, and the
    /// classic parameters 10, 28 and 8/3.
    pub open spec fn initial() -> Configuration {
        Configuration {
            show_diagnostics: false,
            rotate_camera: false,
            camera_speed: 10,
            physics_refresh_rate: 120,
            trail_lifetime: 100,
            num_of_trails: 10,
            initial_distance: 0x3C23_D70A,
            delta_t: 50,
            sigma: 0x4120_0000,
            rho: 0x41E0_0000,
            beta: 0x402A_AAAB,
            trail_segment_count: 0,
        }
    }

    /// The tick rate that the physics timer is set to, in hertz: the setting,
    /// but never less than one tick a second.
    pub open spec fn spec_tick_rate(self) -> u16 {
        if self.physics_refresh_rate < 1 {
            1
        } else {
            self.physics_refresh_rate
        }
    }

    /// The lifetime of a new segment, where `bits` is the pattern of the
    /// setting in seconds. It is a tenth of a second for each unit of the
    /// setting. A lifetime that would not be positive, because the setting is
    /// zero or `bits` is not the pattern of a finite number above zero, counts
    /// as the lifetime of the placeholder.
    pub open spec fn spec_segment_lifetime(self, bits: u32) -> Seconds {
        if self.trail_lifetime > 0 && 0 < bits < INFINITY_BITS {
            Seconds { micros: (self.trail_lifetime * MICROS_PER_TENTH) as u64, bits }
        } else {
            Seconds { micros: PLACEHOLDER_LIFETIME_MICROS, bits: PLACEHOLDER_LIFETIME_BITS }
        }
    }

    /// The tick rate that the physics timer is set to, in hertz.
    #[verifier::when_used_as_spec(spec_tick_rate)]
    pub fn tick_rate(self) -> (rate: u16)
        ensures
            rate == self.spec_tick_rate(),
            rate >= 1,
    {
        if self.physics_refresh_rate < 1 {
            1
        } else {
            self.physics_refresh_rate
        }
    }

    /// The lifetime of a new segment. `bits` is the single-precision pattern
    /// of the lifetime setting in seconds, a tenth of `trail_lifetime`.
    #[verifier::when_used_as_spec(spec_segment_lifetime)]
    pub fn segment_lifetime(self, bits: u32) -> (lifetime: Seconds)
        ensures
            lifetime == self.spec_segment_lifetime(bits),
            lifetime.positive(),
    {
        if self.trail_lifetime > 0 && 0 < bits && bits < INFINITY_BITS {
            let tenths: u64 = self.trail_lifetime as u64;
            Seconds { micros: tenths * MICROS_PER_TENTH, bits }
        } else {
            Seconds { micros: PLACEHOLDER_LIFETIME_MICROS, bits: PLACEHOLDER_LIFETIME_BITS }
        }
    }
}

impl Default for Configuration {
    /// The settings a run starts with.
    fn default() -> (configuration: Configuration)
        ensures
            configuration == Configuration::initial(),
    {
        Configuration {
            show_diagnostics: false,
            rotate_camera: false,
            camera_speed: 10,
            physics_refresh_rate: 120,
            trail_lifetime: 100,
            num_of_trails: 10,
            initial_distance: 0x3C23_D70A,
            delta_t: 50,
            sigma: 0x4120_0000,
            rho: 0x41E0_0000,
            beta: 0x402A_AAAB,
            trail_segment_count: 0,
        }
    }
}

} // verus!
