//! The standalone strategy: resolve the configuration from
//! command-line flag values, rejecting every invalid value with a
//! descriptive error before any configuration is produced.
use vstd::prelude::*;

use crate::errors::{ConfigError, ConfigErrorSpec};
use crate::registry::{contains_name, Registry};
use crate::resolution::{
    dedup_names, default_modules, first_unknown, lemma_first_unknown_none,
    lemma_first_unknown_step, unique_names,
};
use crate::text::{
    count_digits, digit_count, dropped_frac_nonzero, micros_of, parse_speed_micros, parse_u32,
    u32_of,
};

verus! {

/// The flag values of the standalone command line, as text. `None`
/// stands for a flag that was not given on the command line.
pub struct RawArgs {
    pub list_modules_and_exit: bool,
    pub modules: Vec<String>,
    pub speed_factor: Option<String>,
    pub instant_print_lines: Option<String>,
    pub exit_after_time: Option<String>,
    pub exit_after_modules: Option<String>,
    pub print_completions: Option<String>,
    pub print_manpage: bool,
}

/// The abstract form of the raw flag values.
#[verifier::ext_equal]
pub struct RawModel {
    pub list_modules_and_exit: bool,
    pub modules: Seq<Seq<char>>,
    pub speed_factor: Option<Seq<char>>,
    pub instant_print_lines: Option<Seq<char>>,
    pub exit_after_time: Option<Seq<char>>,
    pub exit_after_modules: Option<Seq<char>>,
    pub print_completions: Option<Seq<char>>,
    pub print_manpage: bool,
}

impl View for RawArgs {
    type V = RawModel;

    open spec fn view(&self) -> RawModel {
        RawModel {
            list_modules_and_exit: self.list_modules_and_exit,
            modules: self.modules.deep_view(),
            speed_factor: self.speed_factor.deep_view(),
            instant_print_lines: self.instant_print_lines.deep_view(),
            exit_after_time: self.exit_after_time.deep_view(),
            exit_after_modules: self.exit_after_modules.deep_view(),
            print_completions: self.print_completions.deep_view(),
            print_manpage: self.print_manpage,
        }
    }
}

/// The resolved configuration of the standalone environment. The speed
/// factor is held in millionths, so the constraint "larger than 0.01"
/// reads "larger than 10000"; the optional running-time limit is held
/// in nanoseconds.
pub struct AppConfig {
    pub list_modules_and_exit: bool,
    pub modules: Vec<String>,
    pub speed_factor_micros: u64,
    pub instant_print_lines: u32,
    pub exit_after_time_nanos: Option<u128>,
    pub exit_after_modules: Option<u32>,
    pub print_completions: Option<String>,
    pub print_manpage: bool,
}

/// The abstract form of the resolved standalone configuration.
#[verifier::ext_equal]
pub struct ConfigModel {
    pub list_modules_and_exit: bool,
    pub modules: Seq<Seq<char>>,
    pub speed_factor_micros: u64,
    pub instant_print_lines: u32,
    pub exit_after_time_nanos: Option<u128>,
    pub exit_after_modules: Option<u32>,
    pub print_completions: Option<Seq<char>>,
    pub print_manpage: bool,
}

impl View for AppConfig {
    type V = ConfigModel;

    open spec fn view(&self) -> ConfigModel {
        ConfigModel {
            list_modules_and_exit: self.list_modules_and_exit,
            modules: self.modules.deep_view(),
            speed_factor_micros: self.speed_factor_micros,
            instant_print_lines: self.instant_print_lines,
            exit_after_time_nanos: self.exit_after_time_nanos,
            exit_after_modules: self.exit_after_modules,
            print_completions: self.print_completions.deep_view(),
            print_manpage: self.print_manpage,
        }
    }
}

/// A resolved configuration is well formed: the speed factor exceeds
/// 0.01 (held truncated to millionths, so the stored number can equal
/// 10000 exactly, and only for a value whose dropped digits put it
/// strictly above 0.01), a configured module-run limit is at least 1,
/// the module set holds no name twice, and it is non-empty whenever
/// the registry is.
pub open spec fn config_wf(c: ConfigModel, keys: Seq<Seq<char>>) -> bool {
    &&& c.speed_factor_micros >= 10_000
    &&& (c.exit_after_modules matches Some(m) ==> m >= 1)
    &&& unique_names(c.modules)
    &&& (keys.len() > 0 ==> c.modules.len() > 0)
}

/// How the standalone strategy reads a speed-factor value: a decimal
/// numeral whose value is strictly larger than 0.01, decided on the
/// exact value — a kept part of 10000 millionths with any non-zero
/// dropped digit is above the boundary and accepted. The accepted
/// value is stored truncated to millionths. A value that is no plain
/// decimal numeral (exponent and non-finite forms among the rest), or
/// whose millionths do not fit in `u64`, is rejected as invalid; a
/// value not above 0.01 as too small.
pub open spec fn spec_speed_factor(s: Seq<char>) -> Result<u64, ConfigErrorSpec> {
    match micros_of(s) {
        Option::None => Result::Err(ConfigErrorSpec::InvalidSpeedFactor),
        Option::Some(m) => if m > u64::MAX {
            Result::Err(ConfigErrorSpec::InvalidSpeedFactor)
        } else if m > 10_000 || (m == 10_000 && dropped_frac_nonzero(s)) {
            Result::Ok(m as u64)
        } else {
            Result::Err(ConfigErrorSpec::SpeedFactorTooSmall)
        },
    }
}

/// How the standalone strategy reads an exit-after-modules value: an
/// unsigned integer that must be at least 1.
pub open spec fn spec_min_1(s: Seq<char>) -> Result<u32, ConfigErrorSpec> {
    match u32_of(s) {
        Option::None => Result::Err(ConfigErrorSpec::InvalidModuleCount),
        Option::Some(n) => if n == 0 {
            Result::Err(ConfigErrorSpec::ModuleCountZero)
        } else {
            Result::Ok(n)
        },
    }
}

/// How the standalone strategy reads an instant-print-lines value: an
/// unsigned integer.
pub open spec fn spec_print_lines(s: Seq<char>) -> Result<u32, ConfigErrorSpec> {
    match u32_of(s) {
        Option::None => Result::Err(ConfigErrorSpec::InvalidPrintLines),
        Option::Some(n) => Result::Ok(n),
    }
}

/// The speed-factor flag, defaulting to 1.0 when absent.
pub open spec fn spec_speed_field(o: Option<Seq<char>>) -> Result<u64, ConfigErrorSpec> {
    match o {
        Option::None => Result::Ok(1_000_000u64),
        Option::Some(s) => spec_speed_factor(s),
    }
}

/// The instant-print-lines flag, defaulting to 0 when absent.
pub open spec fn spec_print_lines_field(o: Option<Seq<char>>) -> Result<u32, ConfigErrorSpec> {
    match o {
        Option::None => Result::Ok(0u32),
        Option::Some(s) => spec_print_lines(s),
    }
}

/// How the standalone strategy reads an exit-after-time value: a
/// duration expression, in nanoseconds. A value holding more than
/// eleven digits in all is treated as invalid before the outside
/// parser sees it: the bound keeps every total far below the
/// representable seconds, yet admits durations of many billions of
/// years.
pub open spec fn spec_exit_after_time(s: Seq<char>) -> Result<u128, ConfigErrorSpec> {
    if digit_count(s) > 11 {
        Result::Err(ConfigErrorSpec::InvalidDuration)
    } else {
        match parsed_duration_of(s) {
            Option::Some(n) => Result::Ok(n),
            Option::None => Result::Err(ConfigErrorSpec::InvalidDuration),
        }
    }
}

/// The exit-after-time flag, absent when not given.
pub open spec fn spec_exit_time_field(o: Option<Seq<char>>) -> Result<
    Option<u128>,
    ConfigErrorSpec,
> {
    match o {
        Option::None => Result::Ok(Option::None),
        Option::Some(s) => match spec_exit_after_time(s) {
            Result::Ok(n) => Result::Ok(Option::Some(n)),
            Result::Err(e) => Result::Err(e),
        },
    }
}

/// The exit-after-modules flag, absent when not given.
pub open spec fn spec_exit_modules_field(o: Option<Seq<char>>) -> Result<
    Option<u32>,
    ConfigErrorSpec,
> {
    match o {
        Option::None => Result::Ok(Option::None),
        Option::Some(s) => match spec_min_1(s) {
            Result::Ok(n) => Result::Ok(Option::Some(n)),
            Result::Err(e) => Result::Err(e),
        },
    }
}

/// What standalone resolution yields on the raw flag values `raw`
/// against the registry names `keys`: the resolved configuration, or
/// the first error in validation order (module selection, speed
/// factor, instant print lines, exit-after-time, exit-after-modules).
pub open spec fn spec_resolve(raw: RawModel, keys: Seq<Seq<char>>) -> Result<
    ConfigModel,
    ConfigErrorSpec,
> {
    match first_unknown(raw.modules, keys) {
        Option::Some(n) => Result::Err(ConfigErrorSpec::UnknownModule(n)),
        Option::None => match spec_speed_field(raw.speed_factor) {
            Result::Err(e) => Result::Err(e),
            Result::Ok(sp) => match spec_print_lines_field(raw.instant_print_lines) {
                Result::Err(e) => Result::Err(e),
                Result::Ok(ipl) => match spec_exit_time_field(raw.exit_after_time) {
                    Result::Err(e) => Result::Err(e),
                    Result::Ok(eat) => match spec_exit_modules_field(raw.exit_after_modules) {
                        Result::Err(e) => Result::Err(e),
                        Result::Ok(eam) => Result::Ok(
                            ConfigModel {
                                list_modules_and_exit: raw.list_modules_and_exit,
                                modules: default_modules(dedup_names(raw.modules), keys),
                                speed_factor_micros: sp,
                                instant_print_lines: ipl,
                                exit_after_time_nanos: eat,
                                exit_after_modules: eam,
                                print_completions: raw.print_completions,
                                print_manpage: raw.print_manpage,
                            },
                        ),
                    },
                },
            },
        },
    }
}

/// What `humantime::parse_duration` returns on `s`, in nanoseconds:
/// `None` when `s` is not a duration expression it accepts. The result
/// depends on the characters of `s` alone. It is relied upon only for
/// values of `s` holding at most eleven digits, which that parser
/// handles without fault.
pub uninterp spec fn parsed_duration_of(s: Seq<char>) -> Option<u128>;

/// Relies on `humantime::parse_duration` to read a duration expression
/// such as `2h10min`, and on `std::time::Duration::as_nanos` to take
/// the parsed duration apart into nanoseconds. The precondition bounds
/// the digits of `s`: with at most eleven digits every span value is
/// below 10^11 and the largest unit (a year) is 31557600 seconds, so
/// the accumulated seconds stay far below `u64::MAX`; this keeps the
/// call away from the parser's carry corner — at exactly one second's
/// worth of nanoseconds on a saturated seconds counter it would panic
/// in `Duration::new` — on which it otherwise returns an error or a
/// value for every input.
#[verifier::external_body]
fn parse_duration_nanos(s: &str) -> (r: Option<u128>)
    requires
        digit_count(s@) <= 11,
    ensures
        r == parsed_duration_of(s@),
{
    match humantime::parse_duration(s) {
        Ok(d) => Some(d.as_nanos()),
        Err(_) => None,
    }
}

/// Read a speed-factor flag value.
pub fn parse_speed_factor(s: &str) -> (r: Result<u64, ConfigError>)
    ensures
        r matches Ok(v) ==> spec_speed_factor(s@) == Result::<u64, ConfigErrorSpec>::Ok(v),
        r matches Err(e) ==> spec_speed_factor(s@) == Result::<u64, ConfigErrorSpec>::Err(e@),
{
    match parse_speed_micros(s) {
        Option::Some((m, tail)) => if m > 10_000 || (m == 10_000 && tail) {
            Result::Ok(m)
        } else {
            Result::Err(ConfigError::SpeedFactorTooSmall)
        },
        Option::None => Result::Err(ConfigError::InvalidSpeedFactor),
    }
}

/// Read an exit-after-modules flag value.
pub fn parse_min_1(s: &str) -> (r: Result<u32, ConfigError>)
    ensures
        r matches Ok(v) ==> spec_min_1(s@) == Result::<u32, ConfigErrorSpec>::Ok(v),
        r matches Err(e) ==> spec_min_1(s@) == Result::<u32, ConfigErrorSpec>::Err(e@),
{
    match parse_u32(s) {
        Option::Some(n) => if n == 0 {
            Result::Err(ConfigError::ModuleCountZero)
        } else {
            Result::Ok(n)
        },
        Option::None => Result::Err(ConfigError::InvalidModuleCount),
    }
}

/// Read an instant-print-lines flag value.
pub fn parse_print_lines(s: &str) -> (r: Result<u32, ConfigError>)
    ensures
        r matches Ok(v) ==> spec_print_lines(s@) == Result::<u32, ConfigErrorSpec>::Ok(v),
        r matches Err(e) ==> spec_print_lines(s@) == Result::<u32, ConfigErrorSpec>::Err(e@),
{
    match parse_u32(s) {
        Option::Some(n) => Result::Ok(n),
        Option::None => Result::Err(ConfigError::InvalidPrintLines),
    }
}

/// Read an exit-after-time flag value: a duration expression. Values
/// holding more than eleven digits in all are rejected without being
/// handed to the duration parser.
pub fn parse_exit_after_time(s: &str) -> (r: Result<u128, ConfigError>)
    ensures
        r matches Ok(n) ==> spec_exit_after_time(s@) == Result::<u128, ConfigErrorSpec>::Ok(n),
        r matches Err(e) ==> spec_exit_after_time(s@) == Result::<u128, ConfigErrorSpec>::Err(
            e@,
        ),
{
    if count_digits(s) > 11 {
        return Result::Err(ConfigError::InvalidDuration);
    }
    match parse_duration_nanos(s) {
        Option::Some(n) => Result::Ok(n),
        Option::None => Result::Err(ConfigError::InvalidDuration),
    }
}

/// Resolve the standalone configuration from the raw flag values,
/// validating every value against its constraint and every selected
/// module name against the registry. No configuration is produced on
/// any invalid input.
pub fn parse_args(raw: RawArgs, registry: &Registry) -> (r: Result<AppConfig, ConfigError>)
    ensures
        r matches Ok(c) ==> spec_resolve(raw@, registry@) == Result::<
            ConfigModel,
            ConfigErrorSpec,
        >::Ok(c@),
        r matches Err(e) ==> spec_resolve(raw@, registry@) == Result::<
            ConfigModel,
            ConfigErrorSpec,
        >::Err(e@),
{
    let ghost rm = raw@;
    let RawArgs {
        list_modules_and_exit,
        modules,
        speed_factor,
        instant_print_lines,
        exit_after_time,
        exit_after_modules,
        print_completions,
        print_manpage,
    } = raw;
    let mut i: usize = 0;
    while i < modules.len()
        invariant
            0 <= i <= modules.len(),
            rm == raw@,
            rm.modules == modules.deep_view(),
            rm.modules.len() == modules@.len(),
            forall|j: int| 0 <= j < i ==> registry@.contains(#[trigger] rm.modules[j]),
        decreases modules.len() - i,
    {
        if !registry.contains(modules[i].as_str()) {
            proof {
                assert(rm.modules[i as int] == modules@[i as int]@);
                lemma_first_unknown_step(rm.modules, registry@, i as int);
                assert(rm.modules.skip(i as int)[0] == rm.modules[i as int]);
                assert(first_unknown(rm.modules, registry@) == Option::Some(
                    rm.modules[i as int],
                ));
            }
            return Result::Err(ConfigError::UnknownModule(modules[i].clone()));
        }
        i += 1;
    }
    proof {
        lemma_first_unknown_none(rm.modules, registry@);
        assert(first_unknown(rm.modules, registry@) is None);
    }
    let speed_factor_micros: u64 = match speed_factor {
        Option::Some(s) => match parse_speed_factor(s.as_str()) {
            Result::Ok(v) => v,
            Result::Err(e) => {
                return Result::Err(e);
            },
        },
        Option::None => 1_000_000,
    };
    let instant_print_lines_count: u32 = match instant_print_lines {
        Option::Some(s) => match parse_print_lines(s.as_str()) {
            Result::Ok(v) => v,
            Result::Err(e) => {
                return Result::Err(e);
            },
        },
        Option::None => 0,
    };
    let exit_after_time_nanos: Option<u128> = match exit_after_time {
        Option::Some(s) => match parse_exit_after_time(s.as_str()) {
            Result::Ok(n) => Option::Some(n),
            Result::Err(e) => {
                return Result::Err(e);
            },
        },
        Option::None => Option::None,
    };
    let exit_after_modules_count: Option<u32> = match exit_after_modules {
        Option::Some(s) => match parse_min_1(s.as_str()) {
            Result::Ok(n) => Option::Some(n),
            Result::Err(e) => {
                return Result::Err(e);
            },
        },
        Option::None => Option::None,
    };
    let mut selection: Vec<String> = Vec::new();
    let mut j: usize = 0;
    while j < modules.len()
        invariant
            0 <= j <= modules.len(),
            rm.modules == modules.deep_view(),
            rm.modules.len() == modules@.len(),
            selection.deep_view() == dedup_names(rm.modules.take(j as int)),
        decreases modules.len() - j,
    {
        proof {
            assert(rm.modules.take(j + 1).drop_last() =~= rm.modules.take(j as int));
            assert(rm.modules.take(j + 1).last() == rm.modules[j as int]);
            assert(rm.modules[j as int] == modules@[j as int]@);
        }
        if !contains_name(&selection, modules[j].as_str()) {
            let ghost prev = selection.deep_view();
            let m = modules[j].clone();
            selection.push(m);
            proof {
                assert(selection.deep_view() =~= prev.push(rm.modules[j as int]));
            }
        }
        j += 1;
    }
    proof {
        assert(rm.modules.take(rm.modules.len() as int) =~= rm.modules);
    }
    let resolved_modules: Vec<String> = if selection.len() == 0 {
        registry.keys()
    } else {
        selection
    };
    let c = AppConfig {
        list_modules_and_exit,
        modules: resolved_modules,
        speed_factor_micros,
        instant_print_lines: instant_print_lines_count,
        exit_after_time_nanos,
        exit_after_modules: exit_after_modules_count,
        print_completions,
        print_manpage,
    };
    proof {
        match spec_resolve(rm, registry@) {
            Result::Ok(cm) => assert(cm =~= c@),
            Result::Err(_) => assert(false),
        }
    }
    Result::Ok(c)
}

/// Whether the program should stop: a configured running-time limit is
/// exceeded, or a configured module-run limit is reached. Either limit
/// alone suffices; an absent limit never triggers.
pub open spec fn spec_should_exit(c: ConfigModel, elapsed_nanos: u128, modules_ran: u32) -> bool {
    ||| (c.exit_after_time_nanos matches Some(t) && elapsed_nanos > t)
    ||| (c.exit_after_modules matches Some(m) && modules_ran >= m)
}

impl AppConfig {
    /// Check whether it is time to stop running, given the elapsed
    /// time since start and the number of completed module runs.
    pub fn should_exit(&self, elapsed_nanos: u128, modules_ran: u32) -> (r: bool)
        ensures
            r == spec_should_exit(self@, elapsed_nanos, modules_ran),
    {
        if let Option::Some(t) = self.exit_after_time_nanos {
            if elapsed_nanos > t {
                return true;
            }
        }
        if let Option::Some(m) = self.exit_after_modules {
            if modules_ran >= m {
                return true;
            }
        }
        false
    }
}

} // verus!
