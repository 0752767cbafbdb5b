//! Errors of the standalone resolver. The embedded resolver reports
//! nothing: it falls back to defaults instead.
use vstd::prelude::*;

verus! {

/// A resolution error, as contracts speak of it: the offending module
/// name is carried as a character sequence.
pub enum ConfigErrorSpec {
    InvalidSpeedFactor,
    SpeedFactorTooSmall,
    InvalidPrintLines,
    InvalidModuleCount,
    ModuleCountZero,
    InvalidDuration,
    UnknownModule(Seq<char>),
}

/// Why standalone resolution rejected its input. Each variant names the
/// flag at fault; `UnknownModule` carries the offending module name.
#[derive(Debug, PartialEq, Eq)]
pub enum ConfigError {
    /// The speed-factor value is not a decimal numeral, or does not fit.
    InvalidSpeedFactor,
    /// The speed-factor value is not larger than 0.01.
    SpeedFactorTooSmall,
    /// The instant-print-lines value is not an unsigned integer.
    InvalidPrintLines,
    /// The exit-after-modules value is not an unsigned integer.
    InvalidModuleCount,
    /// The exit-after-modules value is zero.
    ModuleCountZero,
    /// The exit-after-time value is not a duration expression.
    InvalidDuration,
    /// A selected module name is absent from the registry.
    UnknownModule(String),
}

impl View for ConfigError {
    type V = ConfigErrorSpec;

    open spec fn view(&self) -> ConfigErrorSpec {
        match self {
            ConfigError::InvalidSpeedFactor => ConfigErrorSpec::InvalidSpeedFactor,
            ConfigError::SpeedFactorTooSmall => ConfigErrorSpec::SpeedFactorTooSmall,
            ConfigError::InvalidPrintLines => ConfigErrorSpec::InvalidPrintLines,
            ConfigError::InvalidModuleCount => ConfigErrorSpec::InvalidModuleCount,
            ConfigError::ModuleCountZero => ConfigErrorSpec::ModuleCountZero,
            ConfigError::InvalidDuration => ConfigErrorSpec::InvalidDuration,
            ConfigError::UnknownModule(n) => ConfigErrorSpec::UnknownModule(n@),
        }
    }
}

} // verus!
