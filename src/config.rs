use vstd::prelude::*;

use crate::text::{lower_of, lowercase};

verus! {

/// The smallest accepted input character budget.
pub const MIN_INPUT_CHARS: usize = 1000;

/// The smallest accepted upstream timeout, in milliseconds.
pub const MIN_UPSTREAM_TIMEOUT_MS: u64 = 1000;

/// Why a configuration is refused at start-up.
#[derive(Clone, Copy, Debug, PartialEq, Eq, Structural)]
pub enum ConfigError {
    PortZero,
    BadMode,
    InputBudgetTooLow,
    CacheSizeZero,
    TimeoutTooLow,
}

impl ConfigError {
    /// The message reported for the error.
    pub fn message(&self) -> (r: String)
        ensures
            r@ == (match self {
                ConfigError::PortZero => "PORT must be greater than 0"@,
                ConfigError::BadMode => "MODE must be either 'local' or 'cloud'"@,
                ConfigError::InputBudgetTooLow => "MAX_INPUT_CHARS is too low; expected >= 1000"@,
                ConfigError::CacheSizeZero => "RESPONSE_CACHE_SIZE must be greater than 0"@,
                ConfigError::TimeoutTooLow => "UPSTREAM_TIMEOUT_MS must be >= 1000"@,
            }),
    {
        match self {
            ConfigError::PortZero => String::from_str("PORT must be greater than 0"),
            ConfigError::BadMode => String::from_str("MODE must be either 'local' or 'cloud'"),
            ConfigError::InputBudgetTooLow => String::from_str("MAX_INPUT_CHARS is too low; expected >= 1000"),
            ConfigError::CacheSizeZero => String::from_str("RESPONSE_CACHE_SIZE must be greater than 0"),
            ConfigError::TimeoutTooLow => String::from_str("UPSTREAM_TIMEOUT_MS must be >= 1000"),
        }
    }
}

/// The first rule that the values break, checked in a fixed order.
pub open spec fn first_violation(
    port: u16,
    mode: Seq<char>,
    max_input_chars: usize,
    response_cache_size: usize,
    upstream_timeout_ms: u64,
) -> Option<ConfigError> {
    if port == 0 {
        Some(ConfigError::PortZero)
    } else if mode != "local"@ && mode != "cloud"@ {
        Some(ConfigError::BadMode)
    } else if max_input_chars < 1000 {
        Some(ConfigError::InputBudgetTooLow)
    } else if response_cache_size == 0 {
        Some(ConfigError::CacheSizeZero)
    } else if upstream_timeout_ms < 1000 {
        Some(ConfigError::TimeoutTooLow)
    } else {
        None
    }
}

/// Checks the start-up configuration: a non-zero port, a known mode, the
/// minimum input budget, a non-empty cache and the minimum upstream timeout.
pub fn validate_settings(
    port: u16,
    mode: &str,
    max_input_chars: usize,
    response_cache_size: usize,
    upstream_timeout_ms: u64,
) -> (r: Result<(), ConfigError>)
    ensures
        match first_violation(port, mode@, max_input_chars, response_cache_size, upstream_timeout_ms) {
            Some(e) => r == Err::<(), ConfigError>(e),
            None => r is Ok,
        },
{
    let m = String::from_str(mode);
    if port == 0 {
        Err(ConfigError::PortZero)
    } else if m != String::from_str("local") && m != String::from_str("cloud") {
        Err(ConfigError::BadMode)
    } else if max_input_chars < MIN_INPUT_CHARS {
        Err(ConfigError::InputBudgetTooLow)
    } else if response_cache_size == 0 {
        Err(ConfigError::CacheSizeZero)
    } else if upstream_timeout_ms < MIN_UPSTREAM_TIMEOUT_MS {
        Err(ConfigError::TimeoutTooLow)
    } else {
        Ok(())
    }
}

/// Reads a switch: "true", "1" or "yes" in any case turn it on.
pub fn parse_flag(value: &str) -> (r: bool)
    ensures
        r == (lower_of(value@) == "true"@ || lower_of(value@) == "1"@ || lower_of(value@) == "yes"@),
{
    let v = lowercase(value);
    v == String::from_str("true") || v == String::from_str("1") || v == String::from_str("yes")
}

} // verus!
