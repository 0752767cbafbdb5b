use genact_config::errors::ConfigError;
use genact_config::standalone::{parse_exit_after_time, parse_min_1, parse_print_lines, parse_speed_factor};

#[test]
fn speed_integer_accepted() {
    assert_eq!(parse_speed_factor("2"), Ok(2_000_000));
}

#[test]
fn speed_fraction_accepted() {
    assert_eq!(parse_speed_factor("0.25"), Ok(250_000));
}

#[test]
fn speed_plus_sign_accepted() {
    assert_eq!(parse_speed_factor("+1.5"), Ok(1_500_000));
}

#[test]
fn speed_trailing_digits_truncated() {
    assert_eq!(parse_speed_factor("1.2345678"), Ok(1_234_567));
}

#[test]
fn speed_boundary_rejected() {
    assert_eq!(parse_speed_factor("0.01"), Err(ConfigError::SpeedFactorTooSmall));
}

#[test]
fn speed_below_boundary_rejected() {
    assert_eq!(parse_speed_factor("0.005"), Err(ConfigError::SpeedFactorTooSmall));
}

#[test]
fn speed_just_above_boundary_accepted() {
    assert_eq!(parse_speed_factor("0.010001"), Ok(10_001));
}

#[test]
fn speed_garbage_rejected() {
    assert_eq!(parse_speed_factor("abc"), Err(ConfigError::InvalidSpeedFactor));
}

#[test]
fn speed_empty_rejected() {
    assert_eq!(parse_speed_factor(""), Err(ConfigError::InvalidSpeedFactor));
}

#[test]
fn speed_lone_dot_rejected() {
    assert_eq!(parse_speed_factor("."), Err(ConfigError::InvalidSpeedFactor));
}

#[test]
fn speed_two_dots_rejected() {
    assert_eq!(parse_speed_factor("1.2.3"), Err(ConfigError::InvalidSpeedFactor));
}

#[test]
fn speed_too_large_rejected() {
    assert_eq!(
        parse_speed_factor("99999999999999999999"),
        Err(ConfigError::InvalidSpeedFactor)
    );
}

#[test]
fn min_1_accepts_positive() {
    assert_eq!(parse_min_1("3"), Ok(3));
}

#[test]
fn min_1_accepts_plus_sign() {
    assert_eq!(parse_min_1("+7"), Ok(7));
}

#[test]
fn min_1_accepts_largest() {
    assert_eq!(parse_min_1("4294967295"), Ok(u32::MAX));
}

#[test]
fn min_1_rejects_zero() {
    assert_eq!(parse_min_1("0"), Err(ConfigError::ModuleCountZero));
}

#[test]
fn min_1_rejects_garbage() {
    assert_eq!(parse_min_1("x"), Err(ConfigError::InvalidModuleCount));
}

#[test]
fn min_1_rejects_overflow() {
    assert_eq!(parse_min_1("4294967296"), Err(ConfigError::InvalidModuleCount));
}

#[test]
fn print_lines_accepts_number() {
    assert_eq!(parse_print_lines("12"), Ok(12));
}

#[test]
fn print_lines_accepts_zero() {
    assert_eq!(parse_print_lines("0"), Ok(0));
}

#[test]
fn print_lines_rejects_garbage() {
    assert_eq!(parse_print_lines("nope"), Err(ConfigError::InvalidPrintLines));
}

#[test]
fn duration_hours_and_minutes() {
    assert_eq!(parse_exit_after_time("2h10min"), Ok(7_800_000_000_000));
}

#[test]
fn duration_seconds() {
    assert_eq!(parse_exit_after_time("10s"), Ok(10_000_000_000));
}

#[test]
fn duration_garbage_rejected() {
    assert_eq!(parse_exit_after_time("nope"), Err(ConfigError::InvalidDuration));
}

#[test]
fn speed_boundary_with_dropped_nonzero_digit_accepted() {
    assert_eq!(parse_speed_factor("0.0100001"), Ok(10_000));
}

#[test]
fn speed_boundary_with_dropped_zero_digits_rejected() {
    assert_eq!(parse_speed_factor("0.0100000"), Err(ConfigError::SpeedFactorTooSmall));
}

#[test]
fn speed_far_tail_digit_decides_boundary() {
    assert_eq!(parse_speed_factor("0.010000000000001"), Ok(10_000));
}

#[test]
fn duration_eleven_digits_accepted() {
    assert_eq!(parse_exit_after_time("99999999999s"), Ok(99_999_999_999_000_000_000));
}

#[test]
fn duration_twelve_digits_rejected() {
    assert_eq!(parse_exit_after_time("123456789012s"), Err(ConfigError::InvalidDuration));
}

#[test]
fn duration_saturating_input_rejected_not_panicking() {
    assert_eq!(
        parse_exit_after_time("18446744073709551615s 1000000000ns"),
        Err(ConfigError::InvalidDuration)
    );
}
