use lorenz_trails::segment::{
    Seconds, TrailSegment, INFINITY_BITS, ONE_BITS, PLACEHOLDER_LIFETIME_BITS,
    PLACEHOLDER_LIFETIME_MICROS,
};
use lorenz_trails::trails::Trails;

fn seconds(value: f32) -> Seconds {
    Seconds { micros: (value as f64 * 1_000_000.0).round() as u64, bits: value.to_bits() }
}

fn segment(birth: f32, lifetime: f32) -> TrailSegment {
    TrailSegment::encode(
        [birth.to_bits(), 0, 0],
        0,
        None,
        [0, 0, 0],
        seconds(birth),
        seconds(lifetime),
    )
}

fn births(trails: &Trails) -> Vec<u64> {
    (0..trails.len()).map(|i| trails.get(i).unwrap().birth_time.micros).collect()
}

/// A buffer of segments with one lifetime: the placeholder, which was born at
/// zero, and behind it one segment born at each of the given seconds.
fn buffer(born: &[f32], lifetime: f32) -> Trails {
    let mut trails = Trails::new();
    for &birth in born {
        trails.push_segment(segment(birth, lifetime));
    }
    trails.rewrite_lifetime(seconds(lifetime));
    trails
}

#[test]
fn constants_are_the_patterns_they_name() {
    assert_eq!(PLACEHOLDER_LIFETIME_BITS, 0.01f32.to_bits());
    assert_eq!(ONE_BITS, 1.0f32.to_bits());
    assert_eq!(INFINITY_BITS, f32::INFINITY.to_bits());
    assert_eq!(PLACEHOLDER_LIFETIME_MICROS, 10_000);
}

#[test]
fn span_is_positive_when_both_forms_are() {
    assert!(seconds(0.01).is_positive());
    assert!(seconds(1.0).is_positive());
    assert!(Seconds { micros: 1, bits: 1 }.is_positive());
    assert!(Seconds { micros: u64::MAX, bits: f32::MAX.to_bits() }.is_positive());
    assert!(TrailSegment::default().lifetime.is_positive());

    assert!(!seconds(0.0).is_positive());
    assert!(!Seconds { micros: 0, bits: 1.0f32.to_bits() }.is_positive());
    assert!(!Seconds { micros: 1_000_000, bits: 0.0f32.to_bits() }.is_positive());
    assert!(!Seconds { micros: 1_000_000, bits: (-1.0f32).to_bits() }.is_positive());
    assert!(!Seconds { micros: 1_000_000, bits: (-0.0f32).to_bits() }.is_positive());
    assert!(!Seconds { micros: 1_000_000, bits: f32::INFINITY.to_bits() }.is_positive());
    assert!(!Seconds { micros: 1_000_000, bits: f32::NAN.to_bits() }.is_positive());
}

#[test]
fn placeholder_is_zero_but_for_its_lifetime() {
    let placeholder = TrailSegment::default();
    assert_eq!(placeholder.position, [0, 0, 0]);
    assert_eq!(placeholder.length, 0);
    assert_eq!(placeholder.rotation, [0, 0, 0, 0]);
    assert_eq!(placeholder.color, [0, 0, 0]);
    assert_eq!(placeholder.birth_time.micros, 0);
    assert_eq!(placeholder.birth_time.bits, 0.0f32.to_bits());
    assert_eq!(placeholder.lifetime.micros, 10_000);
    assert_eq!(f32::from_bits(placeholder.lifetime.bits), 0.01);
}

#[test]
fn encode_keeps_what_it_is_given() {
    let made = TrailSegment::encode(
        [1, 2, 3],
        4,
        Some([5, 6, 7, 8]),
        [9, 10, 11],
        seconds(2.5),
        seconds(10.0),
    );
    assert_eq!(made.position, [1, 2, 3]);
    assert_eq!(made.length, 4);
    assert_eq!(made.rotation, [5, 6, 7, 8]);
    assert_eq!(made.color, [9, 10, 11]);
    assert_eq!(made.birth_time.micros, 2_500_000);
    assert_eq!(made.birth_time.bits, 2.5f32.to_bits());
    assert_eq!(made.lifetime.micros, 10_000_000);
    assert_eq!(made.lifetime.bits, 10.0f32.to_bits());
}

#[test]
fn encode_without_direction_gets_identity_rotation() {
    let made = TrailSegment::encode([1, 2, 3], 0, None, [0, 0, 0], seconds(0.0), seconds(1.0));
    let rotation = made.rotation.map(f32::from_bits);
    assert_eq!(rotation, [0.0, 0.0, 0.0, 1.0]);
}

#[test]
fn segment_expires_when_age_reaches_lifetime() {
    let made = segment(1.0, 2.0);
    assert!(!made.is_expired(0));
    assert!(!made.is_expired(1_000_000));
    assert!(!made.is_expired(2_999_999));
    assert!(made.is_expired(3_000_000));
    assert!(made.is_expired(u64::MAX));
}

#[test]
fn segment_born_later_than_now_has_not_expired() {
    let made = TrailSegment::encode(
        [0, 0, 0],
        0,
        None,
        [0, 0, 0],
        Seconds { micros: u64::MAX, bits: 0 },
        Seconds { micros: 1, bits: 0 },
    );
    assert!(!made.is_expired(0));
    assert!(!made.is_expired(u64::MAX - 1));
    assert!(!made.is_expired(u64::MAX));
}

#[test]
fn new_buffer_holds_the_placeholder_alone() {
    let trails = Trails::new();
    assert_eq!(trails.len(), 1);
    let only = trails.get(0).unwrap();
    assert_eq!(only.lifetime.micros, 10_000);
    assert_eq!(only.birth_time.micros, 0);
    assert!(trails.get(1).is_none());
}

#[test]
fn push_appends_at_the_tail() {
    let mut trails = Trails::new();
    trails.push_segment(segment(1.0, 5.0));
    trails.push_segment(segment(2.0, 5.0));
    assert_eq!(trails.len(), 3);
    assert_eq!(births(&trails), vec![0, 1_000_000, 2_000_000]);
    assert_eq!(trails.get(2).unwrap().position[0], 2.0f32.to_bits());
    assert!(trails.get(3).is_none());
    assert!(trails.get(usize::MAX).is_none());
}

#[test]
fn eviction_removes_every_segment_whose_age_reached_its_lifetime() {
    // Born at 0, 1, 2 and 3 s with a lifetime of 2 s. At 3 s the ages are
    // 3, 2, 1 and 0 s: the first two have reached the lifetime.
    let mut trails = Trails::new();
    trails.clear();
    trails.rewrite_lifetime(seconds(2.0));
    for birth in [1.0, 2.0, 3.0] {
        trails.push_segment(segment(birth, 2.0));
    }
    assert_eq!(births(&trails), vec![0, 1_000_000, 2_000_000, 3_000_000]);
    trails.evict_expired(3_000_000);
    assert_eq!(births(&trails), vec![2_000_000, 3_000_000]);
}

#[test]
fn eviction_removes_only_the_oldest_while_the_second_is_short_of_its_lifetime() {
    let mut trails = Trails::new();
    trails.rewrite_lifetime(seconds(2.0));
    for birth in [1.0, 2.0, 3.0] {
        trails.push_segment(segment(birth, 2.0));
    }
    trails.evict_expired(2_999_999);
    assert_eq!(births(&trails), vec![1_000_000, 2_000_000, 3_000_000]);
}

#[test]
fn eviction_removes_nothing_while_the_head_is_live() {
    let mut trails = buffer(&[1.0, 2.0], 2.0);
    trails.evict_expired(1_999_999);
    assert_eq!(births(&trails), vec![0, 1_000_000, 2_000_000]);
}

#[test]
fn eviction_stops_at_the_first_live_segment() {
    // The third segment has expired too, but it sits behind a live one.
    let mut trails = Trails::new();
    trails.push_segment(segment(1.0, 100.0));
    trails.push_segment(segment(2.0, 1.0));
    trails.push_segment(segment(3.0, 100.0));
    trails.evict_expired(10_000_000);
    assert_eq!(births(&trails), vec![1_000_000, 2_000_000, 3_000_000]);
}

#[test]
fn eviction_keeps_the_newest_when_all_have_expired() {
    let mut trails = buffer(&[1.0, 2.0, 3.0], 2.0);
    trails.evict_expired(60_000_000);
    assert_eq!(births(&trails), vec![3_000_000]);
    assert!(trails.get(0).unwrap().is_expired(60_000_000));
    trails.evict_expired(61_000_000);
    assert_eq!(births(&trails), vec![3_000_000]);
}

#[test]
fn eviction_never_removes_the_lone_placeholder() {
    let mut trails = Trails::new();
    trails.evict_expired(0);
    assert_eq!(trails.len(), 1);
    trails.evict_expired(u64::MAX);
    assert_eq!(trails.len(), 1);
    assert_eq!(trails.get(0).unwrap().lifetime.bits, PLACEHOLDER_LIFETIME_BITS);
}

#[test]
fn eviction_leaves_only_live_segments_where_lifetimes_are_equal() {
    let born: Vec<f32> = (1..37).map(|i| i as f32 * 0.25).collect();
    let mut trails = buffer(&born, 3.0);
    let now = 9_000_000;
    trails.evict_expired(now);
    // Those born after 6 s stay: at 6.25 s, 6.5 s and so on up to 9 s.
    assert_eq!(trails.len(), 12);
    assert_eq!(trails.get(0).unwrap().birth_time.micros, 6_250_000);
    for i in 0..trails.len() {
        let kept = trails.get(i).unwrap();
        assert!(!kept.is_expired(now));
        assert!(now - kept.birth_time.micros < kept.lifetime.micros);
    }
}

#[test]
fn clear_twice_is_clear_once() {
    let mut trails = buffer(&[1.0, 2.0, 3.0], 2.0);
    trails.clear();
    let first: Vec<TrailSegment> = (0..trails.len()).map(|i| trails.get(i).unwrap()).collect();
    trails.clear();
    let second: Vec<TrailSegment> = (0..trails.len()).map(|i| trails.get(i).unwrap()).collect();
    assert_eq!(first.len(), 1);
    assert_eq!(second.len(), 1);
    let placeholder = TrailSegment::default();
    for only in [first[0], second[0]] {
        assert_eq!(only.position, placeholder.position);
        assert_eq!(only.length, placeholder.length);
        assert_eq!(only.rotation, placeholder.rotation);
        assert_eq!(only.color, placeholder.color);
        assert_eq!(only.birth_time.micros, placeholder.birth_time.micros);
        assert_eq!(only.birth_time.bits, placeholder.birth_time.bits);
        assert_eq!(only.lifetime.micros, placeholder.lifetime.micros);
        assert_eq!(only.lifetime.bits, placeholder.lifetime.bits);
    }
}

#[test]
fn length_is_never_zero() {
    let mut trails = Trails::new();
    assert!(trails.len() >= 1);
    trails.clear();
    assert_eq!(trails.len(), 1);
    trails.evict_expired(5_000_000);
    assert!(trails.len() >= 1);
    trails.push_segment(segment(5.0, 1.0));
    trails.evict_expired(500_000_000);
    assert!(trails.len() >= 1);
    trails.rewrite_lifetime(seconds(1.0));
    assert!(trails.len() >= 1);
    trails.clear();
    assert_eq!(trails.len(), 1);
}

#[test]
fn rewrite_lifetime_reaches_every_segment_and_nothing_else() {
    let mut trails = Trails::new();
    trails.push_segment(segment(1.0, 10.0));
    trails.push_segment(segment(2.0, 20.0));
    trails.push_segment(segment(3.0, 30.0));
    let before: Vec<TrailSegment> = (0..trails.len()).map(|i| trails.get(i).unwrap()).collect();
    trails.rewrite_lifetime(seconds(4.5));
    assert_eq!(trails.len(), before.len());
    for (i, old) in before.iter().enumerate() {
        let new = trails.get(i).unwrap();
        assert_eq!(new.lifetime.micros, 4_500_000);
        assert_eq!(new.lifetime.bits, 4.5f32.to_bits());
        assert_eq!(new.position, old.position);
        assert_eq!(new.length, old.length);
        assert_eq!(new.rotation, old.rotation);
        assert_eq!(new.color, old.color);
        assert_eq!(new.birth_time.micros, old.birth_time.micros);
        assert_eq!(new.birth_time.bits, old.birth_time.bits);
    }
}

#[test]
fn shorter_lifetime_makes_older_segments_expire() {
    let mut trails = buffer(&[1.0, 2.0, 3.0], 100.0);
    trails.evict_expired(4_000_000);
    assert_eq!(trails.len(), 4);
    trails.rewrite_lifetime(seconds(1.5));
    trails.evict_expired(4_000_000);
    assert_eq!(births(&trails), vec![3_000_000]);
}
