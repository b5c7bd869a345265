//! Stepwise construction of a logger and of each of its outputs.
use crate::config::structs::{HighlightConfig, PresetConfig, PresetConfigView};
use crate::fmt::color::Color;
use crate::fmt::icon::IconSet;
use crate::fmt::scope::ScopeConfig;
use crate::fmt::tag::{TagConfig, Transform};
use crate::level::Level;
use crate::logger::output::{
    FileSettings, FileSettingsView, JsonSettings, JsonSettingsView, OutputSpec, OutputSpecView,
    RemoteTarget, RemoteTargetView, TerminalSettings, TerminalSettingsView, file_unset,
    outputs_view, terminal_unset,
};
use crate::logger::{Logger, LoggerView};
use crate::strmap::StrMap;
use crate::text::owned;
use vstd::prelude::*;

verus! {

/// Builds a [`Logger`]: minimum level, presets and outputs.
pub struct LoggerBuilder {
    min_level: Level,
    outputs: Vec<OutputSpec>,
    presets: StrMap<PresetConfig>,
}

/// The value of a [`LoggerBuilder`].
pub struct LoggerBuilderView {
    pub min_level: Level,
    pub outputs: Seq<OutputSpecView>,
    pub presets: Map<Seq<char>, PresetConfigView>,
}

impl View for LoggerBuilder {
    type V = LoggerBuilderView;

    closed spec fn view(&self) -> LoggerBuilderView {
        LoggerBuilderView {
            min_level: self.min_level,
            outputs: outputs_view(self.outputs@),
            presets: self.presets@,
        }
    }
}

/// A fresh builder: level Info, no outputs, no presets.
pub open spec fn builder_start() -> LoggerBuilderView {
    LoggerBuilderView {
        min_level: Level::Info,
        outputs: Seq::empty(),
        presets: Map::empty(),
    }
}

impl Default for LoggerBuilder {
    fn default() -> (r: LoggerBuilder)
        ensures
            r@ == builder_start(),
    {
        LoggerBuilder::new()
    }
}

impl LoggerBuilder {
    /// Level Info, no outputs, no presets.
    pub fn new() -> (r: LoggerBuilder)
        ensures
            r@ == builder_start(),
    {
        let r = LoggerBuilder { min_level: Level::Info, outputs: Vec::new(), presets: StrMap::new() };
        assert(outputs_view(r.outputs@) =~= Seq::<OutputSpecView>::empty());
        r
    }

    /// Messages below `level` are dropped.
    pub fn level(self, level: Level) -> (r: LoggerBuilder)
        ensures
            r@ == (LoggerBuilderView { min_level: level, ..self@ }),
    {
        let mut s = self;
        s.min_level = level;
        s
    }

    /// The named presets the logger can run.
    pub fn presets(self, presets: StrMap<PresetConfig>) -> (r: LoggerBuilder)
        ensures
            r@ == (LoggerBuilderView { presets: presets@, ..self@ }),
    {
        let mut s = self;
        s.presets = presets;
        s
    }

    /// Starts describing a terminal output.
    pub fn terminal(self) -> (r: TerminalBuilder)
        ensures
            r@.parent == self@,
            r@.settings == terminal_unset(),
    {
        TerminalBuilder { parent: self, output: TerminalSettings::new() }
    }

    /// Starts describing a file output.
    pub fn file(self) -> (r: FileBuilder)
        ensures
            r@.parent == self@,
            r@.settings == file_unset(),
    {
        FileBuilder { parent: self, output: FileSettings::new() }
    }

    /// Starts describing a JSON-lines output.
    pub fn json(self) -> (r: JsonBuilder)
        ensures
            r@.parent == self@,
            r@.settings == (JsonSettingsView { path: None, app_name: None }),
    {
        JsonBuilder { parent: self, output: JsonSettings { path: None, app_name: None } }
    }

    /// Starts describing a remote output.
    pub fn remote(self) -> (r: RemoteBuilder)
        ensures
            r@.parent == self@,
            r@.target is None,
    {
        RemoteBuilder { parent: self, target: None }
    }

    /// Adds an output.
    pub fn output(self, output: OutputSpec) -> (r: LoggerBuilder)
        ensures
            r@ == (LoggerBuilderView { outputs: self@.outputs.push(output@), ..self@ }),
    {
        let mut s = self;
        let ghost before = outputs_view(s.outputs@);
        let ghost ov = output@;
        s.outputs.push(output);
        assert(outputs_view(s.outputs@) =~= before.push(ov));
        s
    }

    /// The logger described so far, with no application name.
    pub fn build(self) -> (r: Logger)
        ensures
            r@ == (LoggerView {
                min_level: self@.min_level,
                outputs: self@.outputs,
                presets: self@.presets,
                app_name: None,
            }),
    {
        Logger::from_parts(self.min_level, self.outputs, self.presets, None)
    }
}

/// Describes a terminal output, then returns to the logger builder.
pub struct TerminalBuilder {
    parent: LoggerBuilder,
    output: TerminalSettings,
}

/// The value of a sub-builder: the logger builder and the output's settings.
pub struct SubBuilderView<S> {
    pub parent: LoggerBuilderView,
    pub settings: S,
}

impl View for TerminalBuilder {
    type V = SubBuilderView<TerminalSettingsView>;

    closed spec fn view(&self) -> SubBuilderView<TerminalSettingsView> {
        SubBuilderView { parent: self.parent@, settings: self.output@ }
    }
}

impl TerminalBuilder {
    /// ANSI colors on or off.
    pub fn colors(self, enabled: bool) -> (r: TerminalBuilder)
        ensures
            r@.parent == self@.parent,
            r@.settings == (TerminalSettingsView { colors: Some(enabled), ..self@.settings }),
    {
        let mut s = self;
        s.output.colors = Some(enabled);
        s
    }

    /// The icon set.
    pub fn icons(self, icons: IconSet) -> (r: TerminalBuilder)
        ensures
            r@.parent == self@.parent,
            r@.settings == (TerminalSettingsView { icons: Some(icons@), ..self@.settings }),
    {
        let mut s = self;
        s.output.icons = Some(icons);
        s
    }

    /// The line template.
    pub fn structure(self, template: &str) -> (r: TerminalBuilder)
        ensures
            r@.parent == self@.parent,
            r@.settings == (TerminalSettingsView { structure: Some(template@), ..self@.settings }),
    {
        let mut s = self;
        s.output.structure = Some(owned(template));
        s
    }

    /// How level tags look.
    pub fn tag_config(self, config: TagConfig) -> (r: TerminalBuilder)
        ensures
            r@.parent == self@.parent,
            r@.settings == (TerminalSettingsView { tag_config: Some(config@), ..self@.settings }),
    {
        let mut s = self;
        s.output.tag_config = Some(config);
        s
    }

    /// How the scope column looks.
    pub fn scope_config(self, config: ScopeConfig) -> (r: TerminalBuilder)
        ensures
            r@.parent == self@.parent,
            r@.settings == (TerminalSettingsView { scope_config: Some(config), ..self@.settings }),
    {
        let mut s = self;
        s.output.scope_config = Some(config);
        s
    }

    /// Casing of messages.
    pub fn message_transform(self, transform: Transform) -> (r: TerminalBuilder)
        ensures
            r@.parent == self@.parent,
            r@.settings == (TerminalSettingsView {
                message_transform: Some(transform),
                ..self@.settings
            }),
    {
        let mut s = self;
        s.output.message_transform = Some(transform);
        s
    }

    /// A named color for style tags.
    pub fn color(self, name: String, color: Color) -> (r: TerminalBuilder)
        ensures
            r@.parent == self@.parent,
            r@.settings == (TerminalSettingsView {
                named_colors: self@.settings.named_colors.insert(name@, color),
                ..self@.settings
            }),
    {
        let mut s = self;
        s.output.named_colors.insert(name, color);
        s
    }

    /// The color of a level.
    pub fn level_color(self, level: Level, color: Color) -> (r: TerminalBuilder)
        ensures
            r@.parent == self@.parent,
            r@.settings == (TerminalSettingsView {
                level_colors: self@.settings.level_colors.push((level, color)),
                ..self@.settings
            }),
    {
        let mut s = self;
        s.output.level_colors.push((level, color));
        s
    }

    /// Highlighting of keywords, paths, URLs and numbers.
    pub fn highlight_config(self, config: HighlightConfig) -> (r: TerminalBuilder)
        ensures
            r@.parent == self@.parent,
            r@.settings == (TerminalSettingsView { highlight: Some(config@), ..self@.settings }),
    {
        let mut s = self;
        s.output.highlight = Some(config);
        s
    }

    /// Adds the terminal output and returns to the logger builder.
    pub fn done(self) -> (r: LoggerBuilder)
        ensures
            r@ == (LoggerBuilderView {
                outputs: self@.parent.outputs.push(OutputSpecView::Terminal(self@.settings)),
                ..self@.parent
            }),
    {
        self.parent.output(OutputSpec::Terminal(self.output))
    }
}

/// Describes a file output, then returns to the logger builder.
pub struct FileBuilder {
    parent: LoggerBuilder,
    output: FileSettings,
}

impl View for FileBuilder {
    type V = SubBuilderView<FileSettingsView>;

    closed spec fn view(&self) -> SubBuilderView<FileSettingsView> {
        SubBuilderView { parent: self.parent@, settings: self.output@ }
    }
}

impl FileBuilder {
    /// Directory below which log files are written.
    pub fn base_dir(self, dir: String) -> (r: FileBuilder)
        ensures
            r@.parent == self@.parent,
            r@.settings == (FileSettingsView { base_dir: Some(dir@), ..self@.settings }),
    {
        let mut s = self;
        s.output.base_dir = Some(dir);
        s
    }

    /// Template of the directory path.
    pub fn path_structure(self, template: &str) -> (r: FileBuilder)
        ensures
            r@.parent == self@.parent,
            r@.settings == (FileSettingsView { path_structure: Some(template@), ..self@.settings }),
    {
        let mut s = self;
        s.output.path_structure = Some(owned(template));
        s
    }

    /// Template of the file name.
    pub fn filename_structure(self, template: &str) -> (r: FileBuilder)
        ensures
            r@.parent == self@.parent,
            r@.settings == (FileSettingsView {
                filename_structure: Some(template@),
                ..self@.settings
            }),
    {
        let mut s = self;
        s.output.filename_structure = Some(owned(template));
        s
    }

    /// Template of each line.
    pub fn content_structure(self, template: &str) -> (r: FileBuilder)
        ensures
            r@.parent == self@.parent,
            r@.settings == (FileSettingsView {
                content_structure: Some(template@),
                ..self@.settings
            }),
    {
        let mut s = self;
        s.output.content_structure = Some(owned(template));
        s
    }

    /// Application whose directory the files go to.
    pub fn app_name(self, name: String) -> (r: FileBuilder)
        ensures
            r@.parent == self@.parent,
            r@.settings == (FileSettingsView { app_name: Some(name@), ..self@.settings }),
    {
        let mut s = self;
        s.output.app_name = Some(name);
        s
    }

    /// Format of timestamps.
    pub fn timestamp_format(self, format: String) -> (r: FileBuilder)
        ensures
            r@.parent == self@.parent,
            r@.settings == (FileSettingsView { timestamp_format: Some(format@), ..self@.settings }),
    {
        let mut s = self;
        s.output.timestamp_format = Some(format);
        s
    }

    /// How level tags look in files.
    pub fn tag_config(self, config: TagConfig) -> (r: FileBuilder)
        ensures
            r@.parent == self@.parent,
            r@.settings == (FileSettingsView { tag_config: Some(config@), ..self@.settings }),
    {
        let mut s = self;
        s.output.tag_config = Some(config);
        s
    }

    /// Adds the file output and returns to the logger builder.
    pub fn done(self) -> (r: LoggerBuilder)
        ensures
            r@ == (LoggerBuilderView {
                outputs: self@.parent.outputs.push(OutputSpecView::File(self@.settings)),
                ..self@.parent
            }),
    {
        self.parent.output(OutputSpec::File(self.output))
    }
}

/// Describes a JSON-lines output, then returns to the logger builder.
pub struct JsonBuilder {
    parent: LoggerBuilder,
    output: JsonSettings,
}

impl View for JsonBuilder {
    type V = SubBuilderView<JsonSettingsView>;

    closed spec fn view(&self) -> SubBuilderView<JsonSettingsView> {
        SubBuilderView { parent: self.parent@, settings: self.output@ }
    }
}

impl JsonBuilder {
    /// Path of the JSON-lines file.
    pub fn path(self, path: String) -> (r: JsonBuilder)
        ensures
            r@.parent == self@.parent,
            r@.settings == (JsonSettingsView { path: Some(path@), ..self@.settings }),
    {
        let mut s = self;
        s.output.path = Some(path);
        s
    }

    /// Application recorded in each line.
    pub fn app_name(self, name: String) -> (r: JsonBuilder)
        ensures
            r@.parent == self@.parent,
            r@.settings == (JsonSettingsView { app_name: Some(name@), ..self@.settings }),
    {
        let mut s = self;
        s.output.app_name = Some(name);
        s
    }

    /// Adds the JSON-lines output and returns to the logger builder.
    pub fn done(self) -> (r: LoggerBuilder)
        ensures
            r@ == (LoggerBuilderView {
                outputs: self@.parent.outputs.push(OutputSpecView::Json(self@.settings)),
                ..self@.parent
            }),
    {
        self.parent.output(OutputSpec::Json(self.output))
    }
}

/// Describes a remote output, then returns to the logger builder.
pub struct RemoteBuilder {
    parent: LoggerBuilder,
    target: Option<RemoteTarget>,
}

/// The value of a [`RemoteBuilder`].
pub struct RemoteBuilderView {
    pub parent: LoggerBuilderView,
    pub target: Option<RemoteTargetView>,
}

impl View for RemoteBuilder {
    type V = RemoteBuilderView;

    closed spec fn view(&self) -> RemoteBuilderView {
        RemoteBuilderView {
            parent: self.parent@,
            target: match self.target {
                Some(t) => Some(t@),
                None => None,
            },
        }
    }
}

impl RemoteBuilder {
    /// Connects through the Unix domain socket at `path`.
    pub fn socket(self, path: String) -> (r: RemoteBuilder)
        ensures
            r@.parent == self@.parent,
            r@.target == Some(RemoteTargetView::Unix(path@)),
    {
        let mut s = self;
        s.target = Some(RemoteTarget::Unix(path));
        s
    }

    /// Connects over TCP to `addr`.
    pub fn tcp(self, addr: String) -> (r: RemoteBuilder)
        ensures
            r@.parent == self@.parent,
            r@.target == Some(RemoteTargetView::Tcp(addr@)),
    {
        let mut s = self;
        s.target = Some(RemoteTarget::Tcp(addr));
        s
    }

    /// Adds the remote output and returns to the logger builder; a target
    /// must have been chosen.
    pub fn done(self) -> (r: LoggerBuilder)
        requires
            self@.target is Some,
        ensures
            r@ == (LoggerBuilderView {
                outputs: self@.parent.outputs.push(OutputSpecView::Remote(self@.target.unwrap())),
                ..self@.parent
            }),
    {
        match self.target {
            Some(t) => self.parent.output(OutputSpec::Remote(t)),
            None => self.parent,
        }
    }

    /// Whether a target has been chosen.
    pub fn has_target(&self) -> (r: bool)
        ensures
            r == self@.target is Some,
    {
        self.target.is_some()
    }
}

} // verus!
