//! The state behind the C interface: a logger and the last error, and the
//! loggers the C entry points build.
use crate::config::Config;
use crate::internal::spec_config_level;
use crate::level::Level;
use crate::logger::output::{OutputSpecView, TerminalSettingsView, terminal_unset};
use crate::logger::setup::{add_config_outputs, spec_config_outputs};
use crate::logger::{Logger, LoggerView};
use crate::text::opt_view;
use vstd::prelude::*;

verus! {

/// A logger handed to C callers, with the last error reported to them.
pub struct HyprslogContext {
    pub logger: Logger,
    pub last_error: Option<String>,
}

impl HyprslogContext {
    /// A context around `logger` with no error.
    pub fn new(logger: Logger) -> (r: HyprslogContext)
        ensures
            r.logger@ == logger@,
            r.last_error is None,
    {
        HyprslogContext { logger, last_error: None }
    }

    /// Records an error.
    pub fn set_error(&mut self, err: String)
        ensures
            final(self).logger@ == old(self).logger@,
            opt_view(final(self).last_error) == Some(err@),
    {
        self.last_error = Some(err);
    }

    /// Forgets the last error.
    pub fn clear_error(&mut self)
        ensures
            final(self).logger@ == old(self).logger@,
            final(self).last_error is None,
    {
        self.last_error = None;
    }
}

/// The level a C integer stands for: 0 trace, 1 debug, 3 warn, 4 error, anything else info.
pub open spec fn spec_level_from_int(level: i32) -> Level {
    if level == 0 {
        Level::Trace
    } else if level == 1 {
        Level::Debug
    } else if level == 3 {
        Level::Warn
    } else if level == 4 {
        Level::Error
    } else {
        Level::Info
    }
}

/// The level a C integer stands for.
pub fn level_from_int(level: i32) -> (r: Level)
    ensures
        r == spec_level_from_int(level),
{
    match level {
        0 => Level::Trace,
        1 => Level::Debug,
        3 => Level::Warn,
        4 => Level::Error,
        _ => Level::Info,
    }
}

/// The application name C loggers write files for: the configured one, else `hyprslog`.
pub open spec fn spec_ffi_app(c: crate::config::ConfigView) -> Seq<char> {
    match c.general.app_name {
        Some(a) => a,
        None => "hyprslog"@,
    }
}

/// The logger a configuration gives C callers: its level, and its enabled
/// terminal and file outputs.
pub fn build_logger(config: &Config) -> (r: Logger)
    ensures
        r@ == (LoggerView {
            min_level: spec_config_level(config@),
            outputs: spec_config_outputs(config@, false, spec_ffi_app(config@)),
            presets: Map::empty(),
            app_name: None,
        }),
{
    let b = Logger::builder().level(config.parse_level());
    let app = match &config.general.app_name {
        Some(a) => a.as_str(),
        None => "hyprslog",
    };
    let b = add_config_outputs(b, config, false, app);
    assert(Seq::<OutputSpecView>::empty() + spec_config_outputs(config@, false, spec_ffi_app(config@)) =~= spec_config_outputs(config@, false, spec_ffi_app(config@)));
    b.build()
}

/// A logger with only a terminal output, colored or not, at the level a C integer names.
pub fn simple_logger(level: i32, colors: bool) -> (r: Logger)
    ensures
        r@ == (LoggerView {
            min_level: spec_level_from_int(level),
            outputs: seq![OutputSpecView::Terminal(TerminalSettingsView { colors: Some(colors), ..terminal_unset() })],
            presets: Map::empty(),
            app_name: None,
        }),
{
    let r = Logger::builder().level(level_from_int(level)).terminal().colors(colors).done().build();
    assert(r@.outputs =~= seq![OutputSpecView::Terminal(TerminalSettingsView { colors: Some(colors), ..terminal_unset() })]);
    r
}

/// What the C interface copies into a caller's buffer of `len` bytes for the
/// last error: the message's UTF-8 bytes followed by a NUL byte, or the single
/// NUL byte when there is no error. `None` when the message and its NUL do not
/// fit (the C function then returns -1).
pub open spec fn spec_error_buffer(last_error: Option<Seq<char>>, len: nat) -> Option<Seq<u8>> {
    match last_error {
        Some(m) => if vstd::utf8::encode_utf8(m).len() < len {
            Some(vstd::utf8::encode_utf8(m).push(0u8))
        } else {
            None
        },
        None => Some(seq![0u8]),
    }
}

/// The bytes to copy into a buffer of `len` bytes (`len > 0`) for the last error;
/// the C function returns their count less the NUL.
pub fn error_buffer(last_error: &Option<String>, len: usize) -> (r: Option<Vec<u8>>)
    requires
        len > 0,
    ensures
        match r {
            Some(v) => spec_error_buffer(opt_view(*last_error), len as nat) == Some(v@),
            None => spec_error_buffer(opt_view(*last_error), len as nat) is None,
        },
{
    match last_error {
        Some(msg) => {
            let bytes = msg.as_str().as_bytes();
            if bytes.len() >= len {
                return None;
            }
            let mut out: Vec<u8> = Vec::new();
            let mut i: usize = 0;
            while i < bytes.len()
                invariant
                    i <= bytes@.len(),
                    out@ == bytes@.take(i as int),
                decreases bytes@.len() - i,
            {
                out.push(bytes[i]);
                assert(bytes@.take(i + 1) =~= bytes@.take(i as int).push(bytes@[i as int]));
                i = i + 1;
            }
            assert(bytes@.take(bytes@.len() as int) =~= bytes@);
            out.push(0u8);
            Some(out)
        },
        None => {
            let mut out: Vec<u8> = Vec::new();
            out.push(0u8);
            assert(out@ =~= seq![0u8]);
            Some(out)
        },
    }
}

} // verus!
