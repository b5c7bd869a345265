//! The command line: argument shapes, and what each command decides before
//! anything is printed or touched.
pub mod commands;
pub mod listing;
pub mod preset;
pub mod util;

use crate::level::Level;
use vstd::prelude::*;

verus! {

/// A severity as given on the command line.
#[derive(Debug, Clone, Copy, PartialEq, Eq, Structural)]
pub enum LogLevel {
    Trace,
    Debug,
    Info,
    Warn,
    Error,
}

/// The level a command-line severity stands for.
pub open spec fn spec_level_of(l: LogLevel) -> Level {
    match l {
        LogLevel::Trace => Level::Trace,
        LogLevel::Debug => Level::Debug,
        LogLevel::Info => Level::Info,
        LogLevel::Warn => Level::Warn,
        LogLevel::Error => Level::Error,
    }
}

impl From<LogLevel> for Level {
    fn from(level: LogLevel) -> (r: Level) {
        match level {
            LogLevel::Trace => Level::Trace,
            LogLevel::Debug => Level::Debug,
            LogLevel::Info => Level::Info,
            LogLevel::Warn => Level::Warn,
            LogLevel::Error => Level::Error,
        }
    }
}

impl vstd::std_specs::convert::FromSpecImpl<LogLevel> for Level {
    open spec fn obeys_from_spec() -> bool {
        true
    }

    open spec fn from_spec(v: LogLevel) -> Level {
        spec_level_of(v)
    }
}

/// What `themes` shows: names only, or rendered prompts.
#[derive(Debug, Clone, Copy, PartialEq, Eq, Structural)]
pub enum ThemeAction {
    List,
    Preview,
}

impl Default for ThemeAction {
    fn default() -> (r: ThemeAction)
        ensures
            r == ThemeAction::List,
    {
        ThemeAction::List
    }
}

/// A parsed command line.
pub struct Cli {
    pub command: Option<Command>,
}

/// The subcommands.
#[allow(inconsistent_fields)]
pub enum Command {
    /// One log entry: application, level, scope and the message words.
    Log { app: String, level: LogLevel, scope: String, message: Vec<String> },
    /// Entries given as JSON, or read from standard input.
    Json { json: Option<String> },
    /// Run a preset.
    Preset { name: String },
    /// List the presets.
    Presets,
    /// Show statistics, optionally for one application.
    Stats { app: Option<String> },
    /// Apply retention.
    Cleanup {
        dry_run: bool,
        all: bool,
        older_than: Option<String>,
        max_size: Option<String>,
        keep_last: Option<usize>,
        app: Option<String>,
        compress: bool,
        before: Option<String>,
        after: Option<String>,
    },
    /// List or preview prompt themes.
    Themes { action: ThemeAction },
}

} // verus!
