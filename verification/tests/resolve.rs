use genact_config::errors::ConfigError;
use genact_config::registry::Registry;
use genact_config::standalone::{parse_args, RawArgs};

fn registry() -> Registry {
    Registry::new(vec!["alpha".to_string(), "beta".to_string()])
}

fn no_flags() -> RawArgs {
    RawArgs {
        list_modules_and_exit: false,
        modules: Vec::new(),
        speed_factor: None,
        instant_print_lines: None,
        exit_after_time: None,
        exit_after_modules: None,
        print_completions: None,
        print_manpage: false,
    }
}

#[test]
fn empty_selection_defaults_to_registry() {
    let c = parse_args(no_flags(), &registry()).unwrap();
    assert_eq!(c.modules, vec!["alpha".to_string(), "beta".to_string()]);
    assert_eq!(c.speed_factor_micros, 1_000_000);
    assert_eq!(c.instant_print_lines, 0);
    assert_eq!(c.exit_after_time_nanos, None);
    assert_eq!(c.exit_after_modules, None);
}

#[test]
fn explicit_selection_kept_in_given_order() {
    let mut raw = no_flags();
    raw.modules = vec!["beta".to_string(), "alpha".to_string()];
    let c = parse_args(raw, &registry()).unwrap();
    assert_eq!(c.modules, vec!["beta".to_string(), "alpha".to_string()]);
}

#[test]
fn unknown_module_fails_resolution() {
    let mut raw = no_flags();
    raw.modules = vec!["alpha".to_string(), "zeta".to_string()];
    let r = parse_args(raw, &registry());
    assert_eq!(r.err(), Some(ConfigError::UnknownModule("zeta".to_string())));
}

#[test]
fn too_small_speed_factor_fails_resolution() {
    let mut raw = no_flags();
    raw.speed_factor = Some("0.005".to_string());
    let r = parse_args(raw, &registry());
    assert_eq!(r.err(), Some(ConfigError::SpeedFactorTooSmall));
}

#[test]
fn malformed_duration_fails_resolution() {
    let mut raw = no_flags();
    raw.exit_after_time = Some("xyz".to_string());
    let r = parse_args(raw, &registry());
    assert_eq!(r.err(), Some(ConfigError::InvalidDuration));
}

#[test]
fn all_flags_resolve() {
    let raw = RawArgs {
        list_modules_and_exit: true,
        modules: vec!["alpha".to_string()],
        speed_factor: Some("2".to_string()),
        instant_print_lines: Some("5".to_string()),
        exit_after_time: Some("10s".to_string()),
        exit_after_modules: Some("3".to_string()),
        print_completions: Some("bash".to_string()),
        print_manpage: true,
    };
    let c = parse_args(raw, &registry()).unwrap();
    assert!(c.list_modules_and_exit);
    assert_eq!(c.modules, vec!["alpha".to_string()]);
    assert_eq!(c.speed_factor_micros, 2_000_000);
    assert_eq!(c.instant_print_lines, 5);
    assert_eq!(c.exit_after_time_nanos, Some(10_000_000_000));
    assert_eq!(c.exit_after_modules, Some(3));
    assert_eq!(c.print_completions, Some("bash".to_string()));
    assert!(c.print_manpage);
}

#[test]
fn zero_module_limit_fails_resolution() {
    let mut raw = no_flags();
    raw.exit_after_modules = Some("0".to_string());
    let r = parse_args(raw, &registry());
    assert_eq!(r.err(), Some(ConfigError::ModuleCountZero));
}

#[test]
fn repeated_selection_kept_once_in_first_position() {
    let mut raw = no_flags();
    raw.modules = vec![
        "alpha".to_string(),
        "alpha".to_string(),
        "beta".to_string(),
        "alpha".to_string(),
    ];
    let c = parse_args(raw, &registry()).unwrap();
    assert_eq!(c.modules, vec!["alpha".to_string(), "beta".to_string()]);
}

#[test]
fn registry_drops_repeated_names() {
    let reg = Registry::new(vec!["a".to_string(), "a".to_string(), "b".to_string()]);
    assert_eq!(reg.keys(), vec!["a".to_string(), "b".to_string()]);
}
