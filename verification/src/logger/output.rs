//! What each output backend is configured with. A logger holds these
//! descriptions; writing records to terminals, files, JSON-lines files and
//! remote sockets happens outside the library.
use crate::config::structs::{HighlightConfig, HighlightConfigView};
use crate::fmt::color::Color;
use crate::fmt::icon::{IconSet, IconSetView};
use crate::fmt::scope::ScopeConfig;
use crate::fmt::tag::{TagConfig, TagConfigView, Transform};
use crate::level::Level;
use crate::strmap::StrMap;
use crate::text::opt_view;
use vstd::prelude::*;

verus! {

/// Terminal output settings; `None` leaves the output's own default.
pub struct TerminalSettings {
    pub colors: Option<bool>,
    pub icons: Option<IconSet>,
    pub structure: Option<String>,
    pub tag_config: Option<TagConfig>,
    pub scope_config: Option<ScopeConfig>,
    pub message_transform: Option<Transform>,
    /// Named colors for `<name>…</name>` style tags.
    pub named_colors: StrMap<Color>,
    /// Per-level colors, in the order they were set (later settings win).
    pub level_colors: Vec<(Level, Color)>,
    pub highlight: Option<HighlightConfig>,
}

/// The value of [`TerminalSettings`].
pub struct TerminalSettingsView {
    pub colors: Option<bool>,
    pub icons: Option<IconSetView>,
    pub structure: Option<Seq<char>>,
    pub tag_config: Option<TagConfigView>,
    pub scope_config: Option<ScopeConfig>,
    pub message_transform: Option<Transform>,
    pub named_colors: Map<Seq<char>, Color>,
    pub level_colors: Seq<(Level, Color)>,
    pub highlight: Option<HighlightConfigView>,
}

impl View for TerminalSettings {
    type V = TerminalSettingsView;

    open spec fn view(&self) -> TerminalSettingsView {
        TerminalSettingsView {
            colors: self.colors,
            icons: match self.icons {
                Some(i) => Some(i@),
                None => None,
            },
            structure: opt_view(self.structure),
            tag_config: match self.tag_config {
                Some(t) => Some(t@),
                None => None,
            },
            scope_config: self.scope_config,
            message_transform: self.message_transform,
            named_colors: self.named_colors@,
            level_colors: self.level_colors@,
            highlight: match self.highlight {
                Some(h) => Some(h@),
                None => None,
            },
        }
    }
}

/// Terminal settings with nothing set.
pub open spec fn terminal_unset() -> TerminalSettingsView {
    TerminalSettingsView {
        colors: None,
        icons: None,
        structure: None,
        tag_config: None,
        scope_config: None,
        message_transform: None,
        named_colors: Map::empty(),
        level_colors: Seq::empty(),
        highlight: None,
    }
}

impl TerminalSettings {
    /// Nothing set.
    pub fn new() -> (r: TerminalSettings)
        ensures
            r@ == terminal_unset(),
    {
        let r = TerminalSettings {
            colors: None,
            icons: None,
            structure: None,
            tag_config: None,
            scope_config: None,
            message_transform: None,
            named_colors: StrMap::new(),
            level_colors: Vec::new(),
            highlight: None,
        };
        assert(r@.level_colors =~= Seq::<(Level, Color)>::empty());
        r
    }
}

/// File output settings; `None` leaves the output's own default.
pub struct FileSettings {
    pub base_dir: Option<String>,
    pub path_structure: Option<String>,
    pub filename_structure: Option<String>,
    pub content_structure: Option<String>,
    pub app_name: Option<String>,
    pub timestamp_format: Option<String>,
    pub tag_config: Option<TagConfig>,
}

/// The value of [`FileSettings`].
pub struct FileSettingsView {
    pub base_dir: Option<Seq<char>>,
    pub path_structure: Option<Seq<char>>,
    pub filename_structure: Option<Seq<char>>,
    pub content_structure: Option<Seq<char>>,
    pub app_name: Option<Seq<char>>,
    pub timestamp_format: Option<Seq<char>>,
    pub tag_config: Option<TagConfigView>,
}

impl View for FileSettings {
    type V = FileSettingsView;

    open spec fn view(&self) -> FileSettingsView {
        FileSettingsView {
            base_dir: opt_view(self.base_dir),
            path_structure: opt_view(self.path_structure),
            filename_structure: opt_view(self.filename_structure),
            content_structure: opt_view(self.content_structure),
            app_name: opt_view(self.app_name),
            timestamp_format: opt_view(self.timestamp_format),
            tag_config: match self.tag_config {
                Some(t) => Some(t@),
                None => None,
            },
        }
    }
}

/// File settings with nothing set.
pub open spec fn file_unset() -> FileSettingsView {
    FileSettingsView {
        base_dir: None,
        path_structure: None,
        filename_structure: None,
        content_structure: None,
        app_name: None,
        timestamp_format: None,
        tag_config: None,
    }
}

impl FileSettings {
    /// Nothing set.
    pub fn new() -> (r: FileSettings)
        ensures
            r@ == file_unset(),
    {
        FileSettings {
            base_dir: None,
            path_structure: None,
            filename_structure: None,
            content_structure: None,
            app_name: None,
            timestamp_format: None,
            tag_config: None,
        }
    }
}

/// JSON-lines output settings; `None` leaves the output's own default.
pub struct JsonSettings {
    pub path: Option<String>,
    pub app_name: Option<String>,
}

/// The value of [`JsonSettings`].
pub struct JsonSettingsView {
    pub path: Option<Seq<char>>,
    pub app_name: Option<Seq<char>>,
}

impl View for JsonSettings {
    type V = JsonSettingsView;

    open spec fn view(&self) -> JsonSettingsView {
        JsonSettingsView { path: opt_view(self.path), app_name: opt_view(self.app_name) }
    }
}

/// Where a remote output connects.
pub enum RemoteTarget {
    /// A Unix domain socket at this path.
    Unix(String),
    /// A TCP address such as `127.0.0.1:9872`.
    Tcp(String),
}

/// The value of a [`RemoteTarget`].
pub enum RemoteTargetView {
    Unix(Seq<char>),
    Tcp(Seq<char>),
}

impl View for RemoteTarget {
    type V = RemoteTargetView;

    open spec fn view(&self) -> RemoteTargetView {
        match self {
            RemoteTarget::Unix(p) => RemoteTargetView::Unix(p@),
            RemoteTarget::Tcp(a) => RemoteTargetView::Tcp(a@),
        }
    }
}

/// One configured output backend.
pub enum OutputSpec {
    Terminal(TerminalSettings),
    File(FileSettings),
    Json(JsonSettings),
    Remote(RemoteTarget),
    /// An output supplied by the application, known by this name.
    Custom(String),
}

/// The value of an [`OutputSpec`].
pub enum OutputSpecView {
    Terminal(TerminalSettingsView),
    File(FileSettingsView),
    Json(JsonSettingsView),
    Remote(RemoteTargetView),
    Custom(Seq<char>),
}

impl View for OutputSpec {
    type V = OutputSpecView;

    open spec fn view(&self) -> OutputSpecView {
        match self {
            OutputSpec::Terminal(t) => OutputSpecView::Terminal(t@),
            OutputSpec::File(f) => OutputSpecView::File(f@),
            OutputSpec::Json(j) => OutputSpecView::Json(j@),
            OutputSpec::Remote(r) => OutputSpecView::Remote(r@),
            OutputSpec::Custom(n) => OutputSpecView::Custom(n@),
        }
    }
}

/// The views of a list of outputs.
pub open spec fn outputs_view(v: Seq<OutputSpec>) -> Seq<OutputSpecView> {
    v.map_values(|o: OutputSpec| o@)
}

} // verus!
