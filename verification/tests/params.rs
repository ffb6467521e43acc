use jp8_core::params::{clamp_code, decode_octave_range, MAX_ARP_RANGE, MIN_ARP_RANGE, PARAM_COUNT};

#[test]
fn param_count_is_68() {
    assert_eq!(PARAM_COUNT, 68);
}

#[test]
fn octave_range_clamped() {
    assert_eq!(decode_octave_range(-7), -2);
    assert_eq!(decode_octave_range(-1), -1);
    assert_eq!(decode_octave_range(0), 0);
    assert_eq!(decode_octave_range(2), 2);
    assert_eq!(decode_octave_range(100), 2);
}

#[test]
fn arp_range_clamped() {
    assert_eq!(clamp_code(0, MIN_ARP_RANGE, MAX_ARP_RANGE), 1);
    assert_eq!(clamp_code(2, MIN_ARP_RANGE, MAX_ARP_RANGE), 2);
    assert_eq!(clamp_code(4, MIN_ARP_RANGE, MAX_ARP_RANGE), 4);
    assert_eq!(clamp_code(200, MIN_ARP_RANGE, MAX_ARP_RANGE), 4);
}

#[test]
fn codes_clamped() {
    assert_eq!(clamp_code(99, 0, 2), 2);
    assert_eq!(clamp_code(1, 0, 2), 1);
    assert_eq!(clamp_code(0, 4, 32), 4);
    assert_eq!(clamp_code(255, 2, 64), 64);
}
