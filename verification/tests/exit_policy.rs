use genact_config::embedded;
use genact_config::standalone;

fn config(
    exit_after_time_nanos: Option<u128>,
    exit_after_modules: Option<u32>,
) -> standalone::AppConfig {
    standalone::AppConfig {
        list_modules_and_exit: false,
        modules: vec!["alpha".to_string()],
        speed_factor_micros: 1_000_000,
        instant_print_lines: 0,
        exit_after_time_nanos,
        exit_after_modules,
        print_completions: None,
        print_manpage: false,
    }
}

#[test]
fn time_limit_exceeded_stops() {
    let c = config(Some(10_000_000_000), None);
    assert!(c.should_exit(11_000_000_000, 0));
}

#[test]
fn time_limit_not_reached_continues() {
    let c = config(Some(10_000_000_000), None);
    assert!(!c.should_exit(9_000_000_000, 0));
}

#[test]
fn time_limit_exactly_reached_continues() {
    let c = config(Some(10_000_000_000), None);
    assert!(!c.should_exit(10_000_000_000, 0));
}

#[test]
fn no_time_limit_never_stops_on_time() {
    let c = config(None, None);
    assert!(!c.should_exit(u128::MAX, 0));
}

#[test]
fn module_limit_reached_stops() {
    let c = config(None, Some(3));
    assert!(c.should_exit(0, 3));
}

#[test]
fn module_limit_exceeded_stops() {
    let c = config(None, Some(3));
    assert!(c.should_exit(0, 4));
}

#[test]
fn module_limit_not_reached_continues() {
    let c = config(None, Some(3));
    assert!(!c.should_exit(0, 2));
}

#[test]
fn no_module_limit_never_stops_on_count() {
    let c = config(None, None);
    assert!(!c.should_exit(0, u32::MAX));
}

#[test]
fn either_limit_alone_suffices() {
    let c = config(Some(10_000_000_000), Some(3));
    assert!(c.should_exit(11_000_000_000, 0));
    assert!(c.should_exit(0, 3));
    assert!(!c.should_exit(1, 1));
}

#[test]
fn embedded_never_exits() {
    let c = embedded::AppConfig {
        modules: vec!["foo".to_string()],
        speed_factor_micros: 1_000_000,
        instant_print_lines: 0,
    };
    assert!(!c.should_exit(u128::MAX, u32::MAX));
    assert!(!c.should_exit(0, 0));
}
