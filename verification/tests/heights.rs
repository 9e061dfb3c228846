use idasen::binary64::{Binary64, TICKS_PER_UNIT};
use idasen::height::{
    height_from_raw, is_allowed, is_close, speed_from_raw, target_raw, IDASEN_MAX_HEIGHT,
    IDASEN_MIN_HEIGHT, MAX_TICKS, MIN_TICKS, TOLERANCE_TICKS,
};
use idasen::rounding::round_quotient;

fn meters(value: f64) -> Binary64 {
    Binary64 { bits: value.to_bits() }
}

fn value(number: Binary64) -> f64 {
    f64::from_bits(number.bits)
}

#[test]
fn limits_are_those_of_the_desk() {
    assert_eq!(IDASEN_MIN_HEIGHT, 0.62f64.to_bits());
    assert_eq!(IDASEN_MAX_HEIGHT, 1.27f64.to_bits());
    assert_eq!(meters(0.62).to_ticks(), MIN_TICKS);
    assert_eq!(meters(1.27).to_ticks(), MAX_TICKS);
    assert_eq!(meters(0.001).to_ticks(), TOLERANCE_TICKS);
    assert_eq!(meters(1.0).to_ticks(), TICKS_PER_UNIT);
}

#[test]
fn every_reported_height_is_decoded_as_doubles_do() {
    for raw in 0..=u16::MAX {
        let expected = (raw as f64 / 10000.0) + 0.62;
        assert_eq!(height_from_raw(raw).bits, expected.to_bits(), "{}", raw);
    }
}

#[test]
fn every_reported_speed_is_decoded_as_doubles_do() {
    for raw in i16::MIN..=i16::MAX {
        let expected = raw as f64 / 10000.0;
        assert_eq!(speed_from_raw(raw).bits, expected.to_bits(), "{}", raw);
        assert_eq!(value(speed_from_raw(raw)) == 0.0, raw == 0);
    }
}

#[test]
fn known_heights() {
    assert_eq!(value(height_from_raw(0)), 0.62);
    assert_eq!(value(height_from_raw(1300)), 0.75);
    assert_eq!(value(height_from_raw(6500)), 1.27);
    assert_eq!(format!("{:.3}", value(height_from_raw(4801))), "1.100");
    assert_eq!(value(speed_from_raw(-320)), -0.032);
}

#[test]
fn allowed_heights_are_those_between_the_limits() {
    assert!(is_allowed(meters(0.62)));
    assert!(is_allowed(meters(1.0)));
    assert!(is_allowed(meters(1.27)));
    assert!(!is_allowed(Binary64 { bits: 0.62f64.to_bits() - 1 }));
    assert!(!is_allowed(Binary64 { bits: 1.27f64.to_bits() + 1 }));
    let others = [
        0.0,
        -0.0,
        -1.0,
        -0.75,
        0.619,
        1.271,
        75.0,
        f64::MIN_POSITIVE,
        5e-324,
        f64::MAX,
        f64::INFINITY,
        f64::NEG_INFINITY,
        f64::NAN,
        -f64::NAN,
    ];
    for other in others {
        assert!(!is_allowed(meters(other)), "{}", other);
    }
}

#[test]
fn target_numbers_are_those_that_doubles_give() {
    let low = IDASEN_MIN_HEIGHT;
    let high = IDASEN_MAX_HEIGHT;
    let stride = (high - low) / 300_007;
    let mut bits = low;
    while bits <= high {
        let target = f64::from_bits(bits);
        assert_eq!(target_raw(Binary64 { bits }), ((target - 0.62) * 10000.0) as u16, "{}", target);
        bits += stride;
    }
    for steps in 6200..=12700u32 {
        let target: f64 = format!("{}", steps as f64 / 10000.0).parse().unwrap();
        assert_eq!(target_raw(meters(target)), ((target - 0.62) * 10000.0) as u16, "{}", target);
    }
    for step in 0..2000 {
        let bits = low + step;
        let target = f64::from_bits(bits);
        assert_eq!(target_raw(Binary64 { bits }), ((target - 0.62) * 10000.0) as u16);
        let bits = high - step;
        let target = f64::from_bits(bits);
        assert_eq!(target_raw(Binary64 { bits }), ((target - 0.62) * 10000.0) as u16);
    }
}

#[test]
fn known_target_numbers() {
    assert_eq!(target_raw(meters(0.62)), 0);
    assert_eq!(target_raw(meters(0.75)), 1300);
    assert_eq!(target_raw(meters(1.10)), 4800);
    assert_eq!(target_raw(meters(1.27)), 6500);
}

#[test]
fn closeness_is_what_doubles_give() {
    for raw in (0..=6600u16).step_by(7) {
        let here = (raw as f64 / 10000.0) + 0.62;
        for other in (0..=6500u16).step_by(61) {
            let target = (other as f64 / 10000.0) + 0.62;
            assert_eq!(is_close(raw, meters(target)), (here - target).abs() < 0.001);
        }
        for offset in -12..=12i32 {
            let other = raw as i32 + offset;
            if (0..=6500).contains(&other) {
                let target = (other as f64 / 10000.0) + 0.62;
                assert_eq!(is_close(raw, meters(target)), (here - target).abs() < 0.001);
            }
        }
    }
}

#[test]
fn closeness_depends_on_ten_steps() {
    let target = height_from_raw(3000);
    assert!(is_close(3000, target));
    assert!(is_close(3009, target));
    assert!(is_close(2991, target));
    assert!(!is_close(3011, target));
    assert!(!is_close(2989, target));
    assert!(!is_close(u16::MAX, target));
}

#[test]
fn reported_heights_name_their_numbers() {
    for raw in 0..=6500u16 {
        let height = height_from_raw(raw);
        assert!(is_allowed(height));
        let number = target_raw(height);
        assert!(number == raw || number + 1 == raw, "{}", raw);
        assert!(is_close(number, height));
    }
    for raw in 6501..=u16::MAX {
        assert!(!is_allowed(height_from_raw(raw)));
    }
}

#[test]
fn heights_and_numbers_grow() {
    for raw in 0..u16::MAX {
        assert!(height_from_raw(raw).bits < height_from_raw(raw + 1).bits);
    }
    for raw in 0..6500u16 {
        assert!(target_raw(height_from_raw(raw)) <= target_raw(height_from_raw(raw + 1)));
    }
}

#[test]
fn speeds_grow() {
    for raw in i16::MIN..i16::MAX {
        assert!(value(speed_from_raw(raw)) < value(speed_from_raw(raw + 1)), "{}", raw);
    }
}

#[test]
fn ticks_and_patterns_name_each_other() {
    for number in [0.62, 0.75, 1.0, 1.1, 1.27, 2.0, 7.1735, 0.0001, 0.001] {
        let double = meters(number);
        assert_eq!(Binary64::from_ticks(double.to_ticks(), false), double);
        assert_eq!(Binary64::from_ticks(double.to_ticks(), true), meters(-number));
    }
    assert_eq!(Binary64::from_ticks(0, false), meters(0.0));
    assert_eq!(Binary64::from_ticks(0, true), meters(-0.0));
}

#[test]
fn quotients_round_to_53_bits() {
    let limit: u128 = 1 << 53;
    assert_eq!(round_quotient(7, 1), 7);
    assert_eq!(round_quotient(7, 2), 4);
    assert_eq!(round_quotient(5, 2), 2);
    assert_eq!(round_quotient(limit, 1), limit);
    assert_eq!(round_quotient(limit + 1, 1), limit);
    assert_eq!(round_quotient(limit + 2, 1), limit + 2);
    assert_eq!(round_quotient(limit + 3, 1), limit + 4);
    assert_eq!(round_quotient(4 * limit - 1, 1), 4 * limit);
    for n in [1u64 << 60, (1 << 60) + 12345, (1 << 61) - 1, 0x1234_5678_9abc_def1] {
        assert_eq!(round_quotient(n as u128, 1), n as f64 as u128);
        assert_eq!(round_quotient((n as u128) << 60, 1 << 60), n as f64 as u128);
    }
}
