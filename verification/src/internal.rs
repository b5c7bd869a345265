//! The library's own diagnostic logger, described by the loaded configuration.
use crate::config::{Config, ConfigView};
use crate::level::Level;
use crate::logger::setup::{add_config_outputs, spec_config_outputs};
use crate::logger::{Logger, LoggerView};
use vstd::prelude::*;

verus! {

/// The configured minimum level, Info when the name is not a level.
pub open spec fn spec_config_level(c: ConfigView) -> Level {
    match Level::spec_parse(c.general.level) {
        Some(l) => l,
        None => Level::Info,
    }
}

/// The diagnostic logger: the configured level, the enabled terminal output
/// (with highlighting) and file output (written as `hyprlog`), no presets.
pub fn build_internal_logger(config: &Config) -> (r: Logger)
    ensures
        r@ == (LoggerView {
            min_level: spec_config_level(config@),
            outputs: spec_config_outputs(config@, true, "hyprlog"@),
            presets: Map::empty(),
            app_name: None,
        }),
{
    let b = Logger::builder().level(config.parse_level());
    let b = add_config_outputs(b, config, true, "hyprlog");
    assert(Seq::<crate::logger::output::OutputSpecView>::empty() + spec_config_outputs(config@, true, "hyprlog"@) =~= spec_config_outputs(config@, true, "hyprlog"@));
    b.build()
}

} // verus!
