//! The runner's own settings, as read from its configuration.

use vstd::prelude::*;

use crate::text::str_eq;

verus! {

/// The version of the runner.
pub const VERSION: &'static str = "0.1";

/// Where the configuration is looked for.
pub const CONFIG_PATH: &'static str = "./config";

/// The home directory used when the configuration names none.
pub const DEFAULT_HOMEDIR: &'static str = "/var/lib/friday";

/// The log level used when the configuration names none, or one that is
/// not known.
pub const DEFAULT_LOG_LEVEL: &'static str = "info";

/// How much is logged.
#[derive(Clone, Copy, PartialEq, Eq, Structural, Debug)]
pub enum LevelFilter {
    Error,
    Warn,
    Info,
    Debug,
}

/// Why the settings cannot be used.
#[derive(Clone, Copy, PartialEq, Eq, Structural, Debug)]
pub enum ConfigError {
    /// The configuration names no log file.
    MissingLogFile,
}

impl ConfigError {
    /// A sentence for the operator.
    pub fn message(&self) -> (text: &'static str)
        ensures
            text@ == "log->file not found in config.yml."@,
    {
        "log->file not found in config.yml."
    }
}

/// The runner's settings.
pub struct Config {
    pub version: &'static str,
    pub homedir: String,
    pub log_file: String,
    pub log_level: String,
}

/// The level that a spelling names, if it is a known one.
pub open spec fn named_level(text: Seq<char>) -> Option<LevelFilter> {
    if text == "debug"@ || text == "Debug"@ || text == "DEBUG"@ || text == "D"@ || text == "d"@ {
        Some(LevelFilter::Debug)
    } else if text == "info"@ || text == "Info"@ || text == "INFO"@ || text == "I"@ || text
        == "i"@ {
        Some(LevelFilter::Info)
    } else if text == "error"@ || text == "Error"@ || text == "ERROR"@ || text == "E"@ || text
        == "e"@ {
        Some(LevelFilter::Error)
    } else if text == "warning"@ || text == "Warning"@ || text == "WARNING"@ || text == "W"@
        || text == "w"@ || text == "warn"@ || text == "Warn"@ || text == "WARN"@ {
        Some(LevelFilter::Warn)
    } else {
        None
    }
}

/// The level that a spelling stands for: the one it names, or `Info`.
pub open spec fn level_of(text: Seq<char>) -> LevelFilter {
    match named_level(text) {
        Some(level) => level,
        None => LevelFilter::Info,
    }
}

/// The text of an optional setting, or its default.
pub open spec fn or_default(setting: Option<&str>, default: Seq<char>) -> Seq<char> {
    match setting {
        Some(text) => text@,
        None => default,
    }
}

/// Finds the level that a spelling names.
pub fn parse_level(text: &str) -> (level: Option<LevelFilter>)
    ensures
        level == named_level(text@),
{
    if str_eq(text, "debug") || str_eq(text, "Debug") || str_eq(text, "DEBUG") || str_eq(text, "D")
        || str_eq(text, "d") {
        Some(LevelFilter::Debug)
    } else if str_eq(text, "info") || str_eq(text, "Info") || str_eq(text, "INFO") || str_eq(
        text,
        "I",
    ) || str_eq(text, "i") {
        Some(LevelFilter::Info)
    } else if str_eq(text, "error") || str_eq(text, "Error") || str_eq(text, "ERROR") || str_eq(
        text,
        "E",
    ) || str_eq(text, "e") {
        Some(LevelFilter::Error)
    } else if str_eq(text, "warning") || str_eq(text, "Warning") || str_eq(text, "WARNING")
        || str_eq(text, "W") || str_eq(text, "w") || str_eq(text, "warn") || str_eq(text, "Warn")
        || str_eq(text, "WARN") {
        Some(LevelFilter::Warn)
    } else {
        None
    }
}

impl Config {
    /// Makes the settings from what the configuration holds. The log file
    /// must be named; the home directory and the log level have defaults.
    pub fn new(homedir: Option<&str>, log_file: Option<&str>, log_level: Option<&str>) -> (config:
        Result<Config, ConfigError>)
        ensures
            config is Ok <==> log_file is Some,
            config matches Err(e) ==> e == ConfigError::MissingLogFile,
            config matches Ok(c) ==> {
                &&& c.version@ == VERSION@
                &&& c.homedir@ == or_default(homedir, DEFAULT_HOMEDIR@)
                &&& log_file matches Some(f) && c.log_file@ == f@
                &&& c.log_level@ == or_default(log_level, DEFAULT_LOG_LEVEL@)
            },
    {
        let log_file = match log_file {
            Some(f) => String::from_str(f),
            None => {
                return Err(ConfigError::MissingLogFile);
            },
        };
        let homedir = match homedir {
            Some(h) => String::from_str(h),
            None => String::from_str(DEFAULT_HOMEDIR),
        };
        let log_level = match log_level {
            Some(l) => String::from_str(l),
            None => String::from_str(DEFAULT_LOG_LEVEL),
        };
        Ok(Config { version: VERSION, homedir, log_file, log_level })
    }

    /// The level to log at: the one that `log_level` names, or `Info` if it
    /// names none.
    pub fn get_level_filter(&self) -> (level: LevelFilter)
        ensures
            level == level_of(self.log_level@),
    {
        match parse_level(self.log_level.as_str()) {
            Some(level) => level,
            None => LevelFilter::Info,
        }
    }
}

} // verus!
