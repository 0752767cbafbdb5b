use genact_config::embedded::parse_args;
use genact_config::registry::Registry;

fn registry() -> Registry {
    Registry::new(vec!["foo".to_string(), "bar".to_string()])
}

#[test]
fn valid_module_kept_and_bad_speed_defaults() {
    let c = parse_args("http://example.com/?module=foo&speed-factor=abc", &registry());
    assert_eq!(c.modules, vec!["foo".to_string()]);
    assert_eq!(c.speed_factor_micros, 1_000_000);
}

#[test]
fn unknown_module_dropped_valid_kept() {
    let c = parse_args(
        "http://example.com/?module=foo&module=nope&module=bar",
        &registry(),
    );
    assert_eq!(c.modules, vec!["foo".to_string(), "bar".to_string()]);
}

#[test]
fn no_query_defaults_to_registry() {
    let c = parse_args("http://example.com/", &registry());
    assert_eq!(c.modules, vec!["foo".to_string(), "bar".to_string()]);
    assert_eq!(c.speed_factor_micros, 1_000_000);
    assert_eq!(c.instant_print_lines, 0);
}

#[test]
fn small_speed_factor_replaced_by_default() {
    let c = parse_args("http://example.com/?speed-factor=0.005", &registry());
    assert_eq!(c.speed_factor_micros, 1_000_000);
}

#[test]
fn good_speed_factor_taken_unchanged() {
    let c = parse_args("http://example.com/?speed-factor=2.5", &registry());
    assert_eq!(c.speed_factor_micros, 2_500_000);
}

#[test]
fn print_lines_taken_when_numeric() {
    let c = parse_args("http://example.com/?instant-print-lines=7", &registry());
    assert_eq!(c.instant_print_lines, 7);
}

#[test]
fn print_lines_default_when_malformed() {
    let c = parse_args("http://example.com/?instant-print-lines=x", &registry());
    assert_eq!(c.instant_print_lines, 0);
}

#[test]
fn unparsable_url_yields_defaults() {
    let c = parse_args("not a url", &registry());
    assert_eq!(c.modules, vec!["foo".to_string(), "bar".to_string()]);
    assert_eq!(c.speed_factor_micros, 1_000_000);
    assert_eq!(c.instant_print_lines, 0);
}

#[test]
fn percent_encoded_module_name_decoded() {
    let c = parse_args("http://example.com/?module=fo%6F", &registry());
    assert_eq!(c.modules, vec!["foo".to_string()]);
}

#[test]
fn first_speed_factor_occurrence_wins() {
    let c = parse_args(
        "http://example.com/?speed-factor=2&speed-factor=3",
        &registry(),
    );
    assert_eq!(c.speed_factor_micros, 2_000_000);
}

#[test]
fn repeated_module_value_selected_once() {
    let c = parse_args(
        "http://example.com/?module=foo&module=foo&module=bar",
        &registry(),
    );
    assert_eq!(c.modules, vec!["foo".to_string(), "bar".to_string()]);
}

#[test]
fn boundary_speed_with_dropped_nonzero_digit_kept() {
    let c = parse_args("http://example.com/?speed-factor=0.0100001", &registry());
    assert_eq!(c.speed_factor_micros, 10_000);
}

#[test]
fn boundary_speed_with_dropped_zero_digits_defaults() {
    let c = parse_args("http://example.com/?speed-factor=0.0100000", &registry());
    assert_eq!(c.speed_factor_micros, 1_000_000);
}
