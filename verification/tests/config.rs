use lorenz_trails::config::{Configuration, MICROS_PER_TENTH};
use lorenz_trails::segment::{PLACEHOLDER_LIFETIME_BITS, PLACEHOLDER_LIFETIME_MICROS};

#[test]
fn default_configuration() {
    let configuration = Configuration::default();
    assert!(!configuration.show_diagnostics);
    assert!(!configuration.rotate_camera);
    assert_eq!(configuration.camera_speed, 10);
    assert_eq!(configuration.physics_refresh_rate, 120);
    assert_eq!(configuration.trail_lifetime, 100);
    assert_eq!(configuration.num_of_trails, 10);
    assert_eq!(f32::from_bits(configuration.initial_distance), 0.01);
    assert_eq!(configuration.delta_t, 50);
    assert_eq!(f32::from_bits(configuration.sigma), 10.0);
    assert_eq!(f32::from_bits(configuration.rho), 28.0);
    assert_eq!(f32::from_bits(configuration.beta), 8.0 / 3.0);
    assert_eq!(configuration.trail_segment_count, 0);
}

#[test]
fn tick_rate_is_the_setting() {
    let mut configuration = Configuration::default();
    assert_eq!(configuration.tick_rate(), 120);
    configuration.physics_refresh_rate = 1;
    assert_eq!(configuration.tick_rate(), 1);
    configuration.physics_refresh_rate = u16::MAX;
    assert_eq!(configuration.tick_rate(), u16::MAX);
}

#[test]
fn tick_rate_of_zero_is_one_hertz() {
    let mut configuration = Configuration::default();
    configuration.physics_refresh_rate = 0;
    assert_eq!(configuration.tick_rate(), 1);
}

#[test]
fn segment_lifetime_is_a_tenth_of_a_second_per_unit() {
    let mut configuration = Configuration::default();
    let bits = 10.0f32.to_bits();
    let lifetime = configuration.segment_lifetime(bits);
    assert_eq!(lifetime.micros, 10_000_000);
    assert_eq!(lifetime.bits, bits);

    configuration.trail_lifetime = 1;
    assert_eq!(configuration.segment_lifetime(0.1f32.to_bits()).micros, MICROS_PER_TENTH);
    assert_eq!(configuration.segment_lifetime(0.1f32.to_bits()).micros, 100_000);

    configuration.trail_lifetime = u16::MAX;
    let longest = configuration.segment_lifetime(6553.5f32.to_bits());
    assert_eq!(longest.micros, 6_553_500_000);
    assert_eq!(f32::from_bits(longest.bits), 6553.5);
}

#[test]
fn segment_lifetime_that_is_no_positive_number_is_the_placeholder_lifetime() {
    let configuration = Configuration::default();
    for bad in [0.0f32, -0.0, -10.0, f32::INFINITY, f32::NEG_INFINITY, f32::NAN] {
        let lifetime = configuration.segment_lifetime(bad.to_bits());
        assert_eq!(lifetime.micros, PLACEHOLDER_LIFETIME_MICROS);
        assert_eq!(lifetime.bits, PLACEHOLDER_LIFETIME_BITS);
        assert!(lifetime.is_positive());
    }
    for good in [f32::MIN_POSITIVE, 10.0, f32::MAX] {
        let lifetime = configuration.segment_lifetime(good.to_bits());
        assert_eq!(lifetime.micros, 10_000_000);
        assert_eq!(lifetime.bits, good.to_bits());
        assert!(lifetime.is_positive());
    }
}

#[test]
fn segment_lifetime_of_zero_is_the_placeholder_lifetime() {
    let mut configuration = Configuration::default();
    configuration.trail_lifetime = 0;
    let lifetime = configuration.segment_lifetime(0.0f32.to_bits());
    assert_eq!(lifetime.micros, PLACEHOLDER_LIFETIME_MICROS);
    assert_eq!(lifetime.bits, PLACEHOLDER_LIFETIME_BITS);
    assert!(lifetime.micros > 0);
}
