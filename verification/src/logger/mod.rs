//! The logger: severity filtering, records, presets, and the builders that
//! describe its outputs.
pub mod builder;
pub mod output;
pub mod render;
pub mod setup;

use crate::config::structs::{PresetConfig, PresetConfigView};
use crate::fmt::format::{FormatValues, FormatValuesView, empty_values};
use crate::level::Level;
use crate::logger::builder::{LoggerBuilder, builder_start};
use crate::logger::output::{OutputSpec, OutputSpecView, outputs_view};
use crate::strmap::StrMap;
use crate::text::{copy_opt_string, opt_view, owned};
use vstd::prelude::*;

verus! {

/// One message as every output receives it.
pub struct LogRecord {
    pub level: Level,
    pub scope: String,
    pub message: String,
    /// Extra placeholder values for templates.
    pub values: FormatValues,
    /// A label shown instead of the level name.
    pub label_override: Option<String>,
    /// The application the message belongs to.
    pub app_name: Option<String>,
    /// Printed as is, without tag or scope.
    pub raw: bool,
}

/// The value of a [`LogRecord`].
pub struct LogRecordView {
    pub level: Level,
    pub scope: Seq<char>,
    pub message: Seq<char>,
    pub values: FormatValuesView,
    pub label_override: Option<Seq<char>>,
    pub app_name: Option<Seq<char>>,
    pub raw: bool,
}

impl View for LogRecord {
    type V = LogRecordView;

    open spec fn view(&self) -> LogRecordView {
        LogRecordView {
            level: self.level,
            scope: self.scope@,
            message: self.message@,
            values: self.values@,
            label_override: opt_view(self.label_override),
            app_name: opt_view(self.app_name),
            raw: self.raw,
        }
    }
}

/// A record with empty extra values that is not raw.
pub open spec fn spec_record(
    level: Level,
    scope: Seq<char>,
    msg: Seq<char>,
    label: Option<Seq<char>>,
    app: Option<Seq<char>>,
) -> LogRecordView {
    LogRecordView {
        level,
        scope,
        message: msg,
        values: empty_values(),
        label_override: label,
        app_name: app,
        raw: false,
    }
}

/// A logger: its minimum level, its outputs, its presets and its application name.
pub struct Logger {
    min_level: Level,
    outputs: Vec<OutputSpec>,
    presets: StrMap<PresetConfig>,
    pub(crate) app_name: Option<String>,
}

/// The value of a [`Logger`].
pub struct LoggerView {
    pub min_level: Level,
    pub outputs: Seq<OutputSpecView>,
    pub presets: Map<Seq<char>, PresetConfigView>,
    pub app_name: Option<Seq<char>>,
}

impl View for Logger {
    type V = LoggerView;

    closed spec fn view(&self) -> LoggerView {
        LoggerView {
            min_level: self.min_level,
            outputs: outputs_view(self.outputs@),
            presets: self.presets@,
            app_name: opt_view(self.app_name),
        }
    }
}

/// Whether a logger with this minimum level lets a message of `level` through.
pub open spec fn passes(min: Level, level: Level) -> bool {
    level.rank() >= min.rank()
}

/// The record a preset produces: its level (Info when the name is not a
/// level), its scope (`LOG` when absent), its message and its application.
pub open spec fn spec_preset_record(p: PresetConfigView, logger_app: Option<Seq<char>>) -> LogRecordView {
    let level = match Level::spec_parse(p.level) {
        Some(l) => l,
        None => Level::Info,
    };
    let scope = match p.scope {
        Some(s) => s,
        None => "LOG"@,
    };
    let app = match p.app_name {
        Some(a) => Some(a),
        None => logger_app,
    };
    spec_record(level, scope, p.msg, None, app)
}

impl Default for Logger {
    fn default() -> (r: Logger)
        ensures
            r@.min_level == Level::Info,
            r@.outputs.len() == 0,
            r@.presets == Map::<Seq<char>, PresetConfigView>::empty(),
            r@.app_name is None,
    {
        let r = Logger {
            min_level: Level::Info,
            outputs: Vec::new(),
            presets: StrMap::new(),
            app_name: None,
        };
        assert(outputs_view(r.outputs@) =~= Seq::<OutputSpecView>::empty());
        r
    }
}

impl Logger {
    /// Assembles a logger from its parts.
    pub(crate) fn from_parts(
        min_level: Level,
        outputs: Vec<OutputSpec>,
        presets: StrMap<PresetConfig>,
        app_name: Option<String>,
    ) -> (r: Logger)
        ensures
            r@ == (LoggerView {
                min_level,
                outputs: outputs_view(outputs@),
                presets: presets@,
                app_name: opt_view(app_name),
            }),
    {
        Logger { min_level, outputs, presets, app_name }
    }

    /// A builder for a logger (minimum level Info, no outputs, no presets).
    pub fn builder() -> (r: LoggerBuilder)
        ensures
            r@ == builder_start(),
    {
        LoggerBuilder::new()
    }

    fn record(&self, level: Level, scope: &str, msg: &str, label: Option<String>, app: Option<String>) -> (r: LogRecord)
        ensures
            r@ == spec_record(level, scope@, msg@, opt_view(label), opt_view(app)),
    {
        LogRecord {
            level,
            scope: owned(scope),
            message: owned(msg),
            values: FormatValues::new(),
            label_override: label,
            app_name: app,
            raw: false,
        }
    }

    /// The record every output receives for a message, or `None` when the
    /// level is below the minimum.
    pub fn log(&self, level: Level, scope: &str, msg: &str) -> (r: Option<LogRecord>)
        ensures
            r is Some <==> passes(self@.min_level, level),
            r matches Some(rec) ==> rec@ == spec_record(level, scope@, msg@, None, self@.app_name),
    {
        if !level.at_least(self.min_level) {
            return None;
        }
        let app = copy_opt_string(&self.app_name);
        Some(self.record(level, scope, msg, None, app))
    }

    /// As [`Logger::log`], shown with `label` instead of the level name.
    pub fn log_with_label(&self, level: Level, scope: &str, msg: &str, label: &str) -> (r: Option<LogRecord>)
        ensures
            r is Some <==> passes(self@.min_level, level),
            r matches Some(rec) ==> rec@ == spec_record(level, scope@, msg@, Some(label@), self@.app_name),
    {
        if !level.at_least(self.min_level) {
            return None;
        }
        let app = copy_opt_string(&self.app_name);
        Some(self.record(level, scope, msg, Some(owned(label)), app))
    }

    /// As [`Logger::log`], for the application `app_name` when one is given.
    pub fn log_full(&self, level: Level, scope: &str, msg: &str, app_name: Option<&str>) -> (r: Option<LogRecord>)
        ensures
            r is Some <==> passes(self@.min_level, level),
            r matches Some(rec) ==> rec@ == spec_record(
                level,
                scope@,
                msg@,
                None,
                match app_name {
                    Some(a) => Some(a@),
                    None => self@.app_name,
                },
            ),
    {
        if !level.at_least(self.min_level) {
            return None;
        }
        let app = match app_name {
            Some(a) => Some(owned(a)),
            None => copy_opt_string(&self.app_name),
        };
        Some(self.record(level, scope, msg, None, app))
    }

    /// A trace message.
    pub fn trace(&self, scope: &str, msg: &str) -> (r: Option<LogRecord>)
        ensures
            r is Some <==> passes(self@.min_level, Level::Trace),
            r matches Some(rec) ==> rec@ == spec_record(Level::Trace, scope@, msg@, None, self@.app_name),
    {
        self.log(Level::Trace, scope, msg)
    }

    /// A debug message.
    pub fn debug(&self, scope: &str, msg: &str) -> (r: Option<LogRecord>)
        ensures
            r is Some <==> passes(self@.min_level, Level::Debug),
            r matches Some(rec) ==> rec@ == spec_record(Level::Debug, scope@, msg@, None, self@.app_name),
    {
        self.log(Level::Debug, scope, msg)
    }

    /// An info message.
    pub fn info(&self, scope: &str, msg: &str) -> (r: Option<LogRecord>)
        ensures
            r is Some <==> passes(self@.min_level, Level::Info),
            r matches Some(rec) ==> rec@ == spec_record(Level::Info, scope@, msg@, None, self@.app_name),
    {
        self.log(Level::Info, scope, msg)
    }

    /// A warning.
    pub fn warn(&self, scope: &str, msg: &str) -> (r: Option<LogRecord>)
        ensures
            r is Some <==> passes(self@.min_level, Level::Warn),
            r matches Some(rec) ==> rec@ == spec_record(Level::Warn, scope@, msg@, None, self@.app_name),
    {
        self.log(Level::Warn, scope, msg)
    }

    /// An error.
    pub fn error(&self, scope: &str, msg: &str) -> (r: Option<LogRecord>)
        ensures
            r is Some <==> passes(self@.min_level, Level::Error),
            r matches Some(rec) ==> rec@ == spec_record(Level::Error, scope@, msg@, None, self@.app_name),
    {
        self.log(Level::Error, scope, msg)
    }

    /// Command output: an Info record that no minimum level filters out.
    pub fn print(&self, scope: &str, msg: &str) -> (r: LogRecord)
        ensures
            r@ == spec_record(Level::Info, scope@, msg@, None, self@.app_name),
    {
        let app = copy_opt_string(&self.app_name);
        self.record(Level::Info, scope, msg, None, app)
    }

    /// A continuation line printed as is: raw, no scope, no application.
    pub fn raw(&self, msg: &str) -> (r: LogRecord)
        ensures
            r@ == (LogRecordView { scope: Seq::empty(), raw: true, ..spec_record(Level::Info, Seq::empty(), msg@, None, None) }),
    {
        LogRecord {
            level: Level::Info,
            scope: String::new(),
            message: owned(msg),
            values: FormatValues::new(),
            label_override: None,
            app_name: None,
            raw: true,
        }
    }

    /// Runs a preset: `None` when no preset has that name, else the record it
    /// produces (`None` inside when its level is below the minimum).
    pub fn preset(&self, name: &str) -> (r: Option<Option<LogRecord>>)
        ensures
            r is Some <==> self@.presets.contains_key(name@),
            r matches Some(out) ==> {
                let rec = spec_preset_record(self@.presets[name@], self@.app_name);
                &&& (out is Some <==> passes(self@.min_level, rec.level))
                &&& (out matches Some(x) ==> x@ == rec)
            },
    {
        match self.presets.get(name) {
            None => None,
            Some(p) => {
                let level = match Level::parse(p.level.as_str()) {
                    Ok(l) => l,
                    Err(_) => Level::Info,
                };
                let scope = match &p.scope {
                    Some(s) => s.as_str(),
                    None => "LOG",
                };
                let app: Option<&str> = match &p.app_name {
                    Some(a) => Some(a.as_str()),
                    None => None,
                };
                Some(self.log_full(level, scope, p.msg.as_str(), app))
            },
        }
    }

    /// Whether a preset has this name.
    pub fn has_preset(&self, name: &str) -> (r: bool)
        ensures
            r == self@.presets.contains_key(name@),
    {
        self.presets.contains_key(name)
    }

    /// Number of presets.
    pub fn preset_count(&self) -> (r: usize)
        ensures
            r == self@.presets.len(),
    {
        self.presets.len()
    }

    /// The minimum level.
    pub fn min_level(&self) -> (r: Level)
        ensures
            r == self@.min_level,
    {
        self.min_level
    }

    /// Number of outputs.
    pub fn output_count(&self) -> (r: usize)
        ensures
            r == self@.outputs.len(),
    {
        self.outputs.len()
    }

    /// The configured outputs, in the order they were added.
    pub fn outputs(&self) -> (r: &Vec<OutputSpec>)
        ensures
            outputs_view(r@) == self@.outputs,
    {
        &self.outputs
    }

    /// The application name records carry by default.
    pub fn app_name(&self) -> (r: Option<&String>)
        ensures
            match r {
                Some(s) => self@.app_name == Some(s@),
                None => self@.app_name is None,
            },
    {
        match &self.app_name {
            Some(s) => Some(s),
            None => None,
        }
    }
}

impl Logger {
    /// The logger for application `app_name`: the configuration with that
    /// application's overrides, its level, its presets, its enabled terminal
    /// and file outputs (files written for `app_name`), and records carrying
    /// `app_name`.
    pub fn from_config_with(config: &crate::config::Config, app_name: &str) -> (r: Logger)
        ensures
            ({
                let c = crate::config::spec_for_app(config@, app_name@);
                r@ == (LoggerView {
                    min_level: crate::internal::spec_config_level(c),
                    outputs: crate::logger::setup::spec_config_outputs(c, false, app_name@),
                    presets: c.presets,
                    app_name: Some(app_name@),
                })
            }),
    {
        let c = config.for_app(app_name);
        let b = Logger::builder().level(c.parse_level()).presets(c.presets.deep_copy());
        let b = crate::logger::setup::add_config_outputs(b, &c, false, app_name);
        assert(Seq::<OutputSpecView>::empty() + crate::logger::setup::spec_config_outputs(c@, false, app_name@) =~= crate::logger::setup::spec_config_outputs(c@, false, app_name@));
        let mut r = b.build();
        r.app_name = Some(owned(app_name));
        r
    }
}


/// A logger that lets a level through lets every more severe level through;
/// Error always passes and a Trace minimum lets everything through.
pub proof fn law_severity_filter_monotone(min: Level, a: Level, b: Level)
    ensures
        passes(min, a) && a.rank() <= b.rank() ==> passes(min, b),
        passes(min, Level::Error),
        passes(Level::Trace, a),
{
}

/// Running a preset logs what `log_full` logs for the preset's level (Info
/// when it names none), scope (`LOG` when unset), message and application:
/// the two give the same record under the same minimum level.
pub proof fn law_preset_is_log_full(l: LoggerView, name: Seq<char>)
    requires
        l.presets.contains_key(name),
    ensures
        ({
            let p = l.presets[name];
            let level = match Level::spec_parse(p.level) {
                Some(x) => x,
                None => Level::Info,
            };
            let scope = match p.scope {
                Some(s) => s,
                None => "LOG"@,
            };
            spec_preset_record(p, l.app_name) == spec_record(
                level,
                scope,
                p.msg,
                None,
                match p.app_name {
                    Some(a) => Some(a),
                    None => l.app_name,
                },
            )
        }),
{
}

} // verus!
