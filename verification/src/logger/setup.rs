//! Loggers described by a configuration: terminal and file outputs as the
//! configuration enables them.
use crate::config::{Config, ConfigView};
use crate::config::structs::HighlightConfigView;
use crate::fmt::icon::{IconSet, IconSetView, builtin_icons};
use crate::logger::builder::{LoggerBuilder, LoggerBuilderView};
use crate::logger::output::{
    FileSettingsView, OutputSpecView, TerminalSettingsView, file_unset, terminal_unset,
};
use crate::strmap::DeepCopy;
use crate::text::{owned, lowercased};
use vstd::prelude::*;

verus! {

/// The terminal output a configuration describes: its colors, its icon family
/// and its line template, and the highlight settings when asked for.
pub open spec fn spec_terminal_settings(c: ConfigView, with_highlight: bool) -> TerminalSettingsView {
    let t = crate::config::spec_icon_type_from_lower(lowercased(c.terminal.icons));
    TerminalSettingsView {
        colors: Some(c.terminal.colors),
        icons: Some(IconSetView { icons: builtin_icons(t), icon_type: t }),
        structure: Some(c.terminal.structure),
        highlight: if with_highlight {
            Some(c.highlight)
        } else {
            None
        },
        ..terminal_unset()
    }
}

/// The file output a configuration describes, writing for `app`.
pub open spec fn spec_file_settings(c: ConfigView, app: Seq<char>) -> FileSettingsView {
    FileSettingsView {
        base_dir: Some(c.file.base_dir),
        path_structure: Some(c.file.path_structure),
        filename_structure: Some(c.file.filename_structure),
        content_structure: Some(c.file.content_structure),
        timestamp_format: Some(c.file.timestamp_format),
        app_name: Some(app),
        ..file_unset()
    }
}

/// The outputs a configuration enables, terminal first.
pub open spec fn spec_config_outputs(c: ConfigView, with_highlight: bool, app: Seq<char>) -> Seq<
    OutputSpecView,
> {
    let t = if c.terminal.enabled {
        seq![OutputSpecView::Terminal(spec_terminal_settings(c, with_highlight))]
    } else {
        Seq::empty()
    };
    let f = if c.file.enabled {
        seq![OutputSpecView::File(spec_file_settings(c, app))]
    } else {
        Seq::empty()
    };
    t + f
}

/// Adds the terminal and file outputs a configuration enables.
pub fn add_config_outputs(builder: LoggerBuilder, config: &Config, with_highlight: bool, app: &str) -> (r: LoggerBuilder)
    ensures
        r@ == (LoggerBuilderView {
            outputs: builder@.outputs + spec_config_outputs(config@, with_highlight, app@),
            ..builder@
        }),
{
    let mut b = builder;
    let ghost start = b@;
    if config.terminal.enabled {
        let mut t = b.terminal().colors(config.terminal.colors).icons(
            IconSet::from_type(config.parse_icon_type()),
        ).structure(config.terminal.structure.as_str());
        if with_highlight {
            t = t.highlight_config(config.highlight.deep_copy());
        }
        b = t.done();
    }
    let ghost mid = b@;
    if config.file.enabled {
        b = b.file().base_dir(config.file.base_dir.clone()).path_structure(
            config.file.path_structure.as_str(),
        ).filename_structure(config.file.filename_structure.as_str()).content_structure(
            config.file.content_structure.as_str(),
        ).timestamp_format(config.file.timestamp_format.clone()).app_name(owned(app)).done();
    }
    proof {
        let want = spec_config_outputs(config@, with_highlight, app@);
        assert(b@.outputs =~= start.outputs + want);
    }
    b
}

} // verus!
