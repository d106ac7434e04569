//! Logging settings from an optional `logging.yml`.
//!
//! Keys: `filter` (takes precedence), `level`, `ansi`,
//! `format.with_timestamp`. Defaults: level `info`, ANSI on, timestamps on.
//! The first of `<preferred>/logging.yml` and `./logging.yml` that exists
//! is used; a file that cannot be read (or parsed) gives the defaults.
use vstd::prelude::*;
use crate::spec::common::opt_string_view;
use crate::text::{concat2, owned};

verus! {

/// The `format` block of `logging.yml`.
#[derive(Debug)]
pub struct FormatConfig {
    pub with_timestamp: Option<bool>,
}

/// The contents of `logging.yml` (all keys optional).
#[derive(Debug)]
pub struct LoggingConfig {
    pub level: Option<String>,
    pub ansi: Option<bool>,
    pub filter: Option<String>,
    pub format: Option<FormatConfig>,
}

impl LoggingConfig {
    /// No key set.
    pub fn empty() -> (r: LoggingConfig)
        ensures
            r.level is None && r.ansi is None && r.filter is None && r.format is None,
    {
        LoggingConfig { level: None, ansi: None, filter: None, format: None }
    }
}

/// Effective logging settings and where they came from.
#[derive(Debug, PartialEq, Eq)]
pub struct LoggingSettings {
    pub filter: String,
    pub ansi: bool,
    pub with_timestamp: bool,
    pub source: String,
}

/// What was found at a candidate location.
#[derive(Debug)]
pub enum ConfigProbe {
    /// No file there.
    Missing,
    /// A file that could not be read.
    Unreadable,
    /// A file that was read (a file that does not parse reads as
    /// [`LoggingConfig::empty`]).
    Read(LoggingConfig),
}

/// The filter a configuration selects: `filter`, else `level`, else `info`.
pub open spec fn config_filter(c: LoggingConfig) -> Seq<char> {
    match c.filter {
        Some(f) => f@,
        None => match c.level {
            Some(l) => l@,
            None => "info"@,
        },
    }
}

/// Whether timestamps are shown (default yes).
pub open spec fn config_timestamp(c: LoggingConfig) -> bool {
    match c.format {
        Some(f) => match f.with_timestamp {
            Some(b) => b,
            None => true,
        },
        None => true,
    }
}

/// Settings of a configuration read from `source`.
pub open spec fn settings_of(s: LoggingSettings, c: LoggingConfig, source: Seq<char>) -> bool {
    &&& s.filter@ == config_filter(c)
    &&& s.ansi == match c.ansi {
        Some(b) => b,
        None => true,
    }
    &&& s.with_timestamp == config_timestamp(c)
    &&& s.source@ == source
}

/// The default settings, with `source`.
pub open spec fn default_settings(s: LoggingSettings, source: Seq<char>) -> bool {
    s.filter@ == "info"@ && s.ansi && s.with_timestamp && s.source@ == source
}

fn settings_from(c: LoggingConfig, source: String) -> (r: LoggingSettings)
    ensures
        settings_of(r, c, source@),
{
    let filter = match &c.filter {
        Some(f) => owned(f.as_str()),
        None => match &c.level {
            Some(l) => owned(l.as_str()),
            None => owned("info"),
        },
    };
    let ansi = match c.ansi {
        Some(b) => b,
        None => true,
    };
    let with_timestamp = match &c.format {
        Some(f) => match f.with_timestamp {
            Some(b) => b,
            None => true,
        },
        None => true,
    };
    LoggingSettings { filter, ansi, with_timestamp, source }
}

fn defaults_from(source: String) -> (r: LoggingSettings)
    ensures
        default_settings(r, source@),
{
    LoggingSettings { filter: owned("info"), ansi: true, with_timestamp: true, source }
}

/// Settings from what was found at `<preferred>/logging.yml` (shown as
/// `preferred_path`) and at `./logging.yml`: the first file present
/// decides; an unreadable one gives the defaults with
/// `<path> (read error, using defaults)` as source; with neither, the
/// defaults with source `default`.
pub fn load_logging_settings(preferred_path: &str, preferred: ConfigProbe, cwd: ConfigProbe) -> (r:
    LoggingSettings)
    ensures
        match preferred {
            ConfigProbe::Read(c) => settings_of(r, c, preferred_path@),
            ConfigProbe::Unreadable => default_settings(
                r,
                preferred_path@ + " (read error, using defaults)"@,
            ),
            ConfigProbe::Missing => match cwd {
                ConfigProbe::Read(c) => settings_of(r, c, "logging.yml"@),
                ConfigProbe::Unreadable => default_settings(
                    r,
                    "logging.yml"@ + " (read error, using defaults)"@,
                ),
                ConfigProbe::Missing => default_settings(r, "default"@),
            },
        },
{
    match preferred {
        ConfigProbe::Read(c) => settings_from(c, owned(preferred_path)),
        ConfigProbe::Unreadable => defaults_from(
            concat2(preferred_path, " (read error, using defaults)"),
        ),
        ConfigProbe::Missing => match cwd {
            ConfigProbe::Read(c) => settings_from(c, owned("logging.yml")),
            ConfigProbe::Unreadable => defaults_from(
                concat2("logging.yml", " (read error, using defaults)"),
            ),
            ConfigProbe::Missing => defaults_from(owned("default")),
        },
    }
}

} // verus!
