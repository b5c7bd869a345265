//! The configuration schema. Every section has defaults so that an empty file
//! gives a working setup; map-valued sections are string-keyed tables.
use crate::strmap::{DeepCopy, StrMap};
use crate::text::{
    copy_opt_string, copy_opt_strings, copy_strings, opt_svec_view, opt_view, owned, push_str,
    string_of, svec_view,
};
use vstd::prelude::*;

verus! {

/// Severity filtering and application identity for all outputs.
pub struct GeneralConfig {
    /// Minimum level name.
    pub level: String,
    /// Application name used for per-app settings and paths.
    pub app_name: Option<String>,
}

/// The value of a [`GeneralConfig`].
pub struct GeneralConfigView {
    pub level: Seq<char>,
    pub app_name: Option<Seq<char>>,
}

impl View for GeneralConfig {
    type V = GeneralConfigView;

    open spec fn view(&self) -> GeneralConfigView {
        GeneralConfigView {
            level: self.level@,
            app_name: opt_view(self.app_name),
        }
    }
}

impl DeepCopy for GeneralConfig {
    fn deep_copy(&self) -> (r: GeneralConfig) {
        GeneralConfig {
            level: self.level.clone(),
            app_name: copy_opt_string(&self.app_name),
        }
    }
}

/// Terminal output settings.
pub struct TerminalConfig {
    /// Whether terminal output is on.
    pub enabled: bool,
    /// Whether ANSI colors are used.
    pub colors: bool,
    /// Icon family name.
    pub icons: String,
    /// Line template.
    pub structure: String,
}

/// The value of a [`TerminalConfig`].
pub struct TerminalConfigView {
    pub enabled: bool,
    pub colors: bool,
    pub icons: Seq<char>,
    pub structure: Seq<char>,
}

impl View for TerminalConfig {
    type V = TerminalConfigView;

    open spec fn view(&self) -> TerminalConfigView {
        TerminalConfigView {
            enabled: self.enabled,
            colors: self.colors,
            icons: self.icons@,
            structure: self.structure@,
        }
    }
}

impl DeepCopy for TerminalConfig {
    fn deep_copy(&self) -> (r: TerminalConfig) {
        TerminalConfig {
            enabled: self.enabled,
            colors: self.colors,
            icons: self.icons.clone(),
            structure: self.structure.clone(),
        }
    }
}

/// Interactive shell appearance.
pub struct ShellConfig {
    /// Theme name.
    pub theme: String,
}

/// The value of a [`ShellConfig`].
pub struct ShellConfigView {
    pub theme: Seq<char>,
}

impl View for ShellConfig {
    type V = ShellConfigView;

    open spec fn view(&self) -> ShellConfigView {
        ShellConfigView {
            theme: self.theme@,
        }
    }
}

impl DeepCopy for ShellConfig {
    fn deep_copy(&self) -> (r: ShellConfig) {
        ShellConfig {
            theme: self.theme.clone(),
        }
    }
}

/// Age and size limits for file logs.
pub struct RetentionConfig {
    /// Maximum age in days.
    pub max_age_days: u32,
    /// Maximum total size, such as `500M`.
    pub max_total_size: Option<String>,
}

/// The value of a [`RetentionConfig`].
pub struct RetentionConfigView {
    pub max_age_days: u32,
    pub max_total_size: Option<Seq<char>>,
}

impl View for RetentionConfig {
    type V = RetentionConfigView;

    open spec fn view(&self) -> RetentionConfigView {
        RetentionConfigView {
            max_age_days: self.max_age_days,
            max_total_size: opt_view(self.max_total_size),
        }
    }
}

impl DeepCopy for RetentionConfig {
    fn deep_copy(&self) -> (r: RetentionConfig) {
        RetentionConfig {
            max_age_days: self.max_age_days,
            max_total_size: copy_opt_string(&self.max_total_size),
        }
    }
}

/// File output settings.
pub struct FileConfig {
    /// Whether file output is on.
    pub enabled: bool,
    /// Root directory of the log tree.
    pub base_dir: String,
    /// Directory template.
    pub path_structure: String,
    /// File name template.
    pub filename_structure: String,
    /// Line template.
    pub content_structure: String,
    /// Timestamp format.
    pub timestamp_format: String,
    /// Retention limits.
    pub retention: RetentionConfig,
}

/// The value of a [`FileConfig`].
pub struct FileConfigView {
    pub enabled: bool,
    pub base_dir: Seq<char>,
    pub path_structure: Seq<char>,
    pub filename_structure: Seq<char>,
    pub content_structure: Seq<char>,
    pub timestamp_format: Seq<char>,
    pub retention: RetentionConfigView,
}

impl View for FileConfig {
    type V = FileConfigView;

    open spec fn view(&self) -> FileConfigView {
        FileConfigView {
            enabled: self.enabled,
            base_dir: self.base_dir@,
            path_structure: self.path_structure@,
            filename_structure: self.filename_structure@,
            content_structure: self.content_structure@,
            timestamp_format: self.timestamp_format@,
            retention: self.retention@,
        }
    }
}

impl DeepCopy for FileConfig {
    fn deep_copy(&self) -> (r: FileConfig) {
        FileConfig {
            enabled: self.enabled,
            base_dir: self.base_dir.clone(),
            path_structure: self.path_structure.clone(),
            filename_structure: self.filename_structure.clone(),
            content_structure: self.content_structure.clone(),
            timestamp_format: self.timestamp_format.clone(),
            retention: self.retention.deep_copy(),
        }
    }
}

/// Defaults of the cleanup command.
pub struct CleanupConfig {
    /// Maximum age in days.
    pub max_age_days: Option<u32>,
    /// Maximum total size, such as `500M`.
    pub max_total_size: Option<String>,
    /// Number of newest files always kept.
    pub keep_last: Option<usize>,
    /// Age after which files are compressed.
    pub compress_after_days: Option<u32>,
}

/// The value of a [`CleanupConfig`].
pub struct CleanupConfigView {
    pub max_age_days: Option<u32>,
    pub max_total_size: Option<Seq<char>>,
    pub keep_last: Option<usize>,
    pub compress_after_days: Option<u32>,
}

impl View for CleanupConfig {
    type V = CleanupConfigView;

    open spec fn view(&self) -> CleanupConfigView {
        CleanupConfigView {
            max_age_days: self.max_age_days,
            max_total_size: opt_view(self.max_total_size),
            keep_last: self.keep_last,
            compress_after_days: self.compress_after_days,
        }
    }
}

impl DeepCopy for CleanupConfig {
    fn deep_copy(&self) -> (r: CleanupConfig) {
        CleanupConfig {
            max_age_days: self.max_age_days,
            max_total_size: copy_opt_string(&self.max_total_size),
            keep_last: self.keep_last,
            compress_after_days: self.compress_after_days,
        }
    }
}

/// Message casing.
pub struct MessageConfigFile {
    /// Casing name.
    pub transform: String,
}

/// The value of a [`MessageConfigFile`].
pub struct MessageConfigFileView {
    pub transform: Seq<char>,
}

impl View for MessageConfigFile {
    type V = MessageConfigFileView;

    open spec fn view(&self) -> MessageConfigFileView {
        MessageConfigFileView {
            transform: self.transform@,
        }
    }
}

impl DeepCopy for MessageConfigFile {
    fn deep_copy(&self) -> (r: MessageConfigFile) {
        MessageConfigFile {
            transform: self.transform.clone(),
        }
    }
}

/// Scope column settings as written in the config file.
pub struct ScopeConfigFile {
    /// Minimum width.
    pub min_width: usize,
    /// Alignment name.
    pub alignment: String,
    /// Casing name.
    pub transform: String,
}

/// The value of a [`ScopeConfigFile`].
pub struct ScopeConfigFileView {
    pub min_width: usize,
    pub alignment: Seq<char>,
    pub transform: Seq<char>,
}

impl View for ScopeConfigFile {
    type V = ScopeConfigFileView;

    open spec fn view(&self) -> ScopeConfigFileView {
        ScopeConfigFileView {
            min_width: self.min_width,
            alignment: self.alignment@,
            transform: self.transform@,
        }
    }
}

impl DeepCopy for ScopeConfigFile {
    fn deep_copy(&self) -> (r: ScopeConfigFile) {
        ScopeConfigFile {
            min_width: self.min_width,
            alignment: self.alignment.clone(),
            transform: self.transform.clone(),
        }
    }
}

/// Level tag settings as written in the config file.
pub struct TagConfigFile {
    /// Opening delimiter.
    pub prefix: String,
    /// Closing delimiter.
    pub suffix: String,
    /// Casing name.
    pub transform: String,
    /// Minimum width.
    pub min_width: usize,
    /// Alignment name.
    pub alignment: String,
    /// Custom labels by level name.
    pub labels: StrMap<String>,
}

/// The value of a [`TagConfigFile`].
pub struct TagConfigFileView {
    pub prefix: Seq<char>,
    pub suffix: Seq<char>,
    pub transform: Seq<char>,
    pub min_width: usize,
    pub alignment: Seq<char>,
    pub labels: Map<Seq<char>, Seq<char>>,
}

impl View for TagConfigFile {
    type V = TagConfigFileView;

    open spec fn view(&self) -> TagConfigFileView {
        TagConfigFileView {
            prefix: self.prefix@,
            suffix: self.suffix@,
            transform: self.transform@,
            min_width: self.min_width,
            alignment: self.alignment@,
            labels: self.labels@,
        }
    }
}

impl DeepCopy for TagConfigFile {
    fn deep_copy(&self) -> (r: TagConfigFile) {
        TagConfigFile {
            prefix: self.prefix.clone(),
            suffix: self.suffix.clone(),
            transform: self.transform.clone(),
            min_width: self.min_width,
            alignment: self.alignment.clone(),
            labels: self.labels.deep_copy(),
        }
    }
}

/// Icon overrides by level name.
pub struct IconsConfig {
    /// NerdFont overrides.
    pub nerdfont: StrMap<String>,
    /// ASCII overrides.
    pub ascii: StrMap<String>,
}

/// The value of a [`IconsConfig`].
pub struct IconsConfigView {
    pub nerdfont: Map<Seq<char>, Seq<char>>,
    pub ascii: Map<Seq<char>, Seq<char>>,
}

impl View for IconsConfig {
    type V = IconsConfigView;

    open spec fn view(&self) -> IconsConfigView {
        IconsConfigView {
            nerdfont: self.nerdfont@,
            ascii: self.ascii@,
        }
    }
}

impl DeepCopy for IconsConfig {
    fn deep_copy(&self) -> (r: IconsConfig) {
        IconsConfig {
            nerdfont: self.nerdfont.deep_copy(),
            ascii: self.ascii.deep_copy(),
        }
    }
}

/// A named, reusable log message.
pub struct PresetConfig {
    /// Level name (may be a custom name).
    pub level: String,
    /// Real level for a custom level name.
    pub as_level: Option<String>,
    /// Scope, `LOG` when absent.
    pub scope: Option<String>,
    /// The message.
    pub msg: String,
    /// Target application.
    pub app_name: Option<String>,
}

/// The value of a [`PresetConfig`].
pub struct PresetConfigView {
    pub level: Seq<char>,
    pub as_level: Option<Seq<char>>,
    pub scope: Option<Seq<char>>,
    pub msg: Seq<char>,
    pub app_name: Option<Seq<char>>,
}

impl View for PresetConfig {
    type V = PresetConfigView;

    open spec fn view(&self) -> PresetConfigView {
        PresetConfigView {
            level: self.level@,
            as_level: opt_view(self.as_level),
            scope: opt_view(self.scope),
            msg: self.msg@,
            app_name: opt_view(self.app_name),
        }
    }
}

impl DeepCopy for PresetConfig {
    fn deep_copy(&self) -> (r: PresetConfig) {
        PresetConfig {
            level: self.level.clone(),
            as_level: copy_opt_string(&self.as_level),
            scope: copy_opt_string(&self.scope),
            msg: self.msg.clone(),
            app_name: copy_opt_string(&self.app_name),
        }
    }
}

/// Colors of the automatic highlight patterns; absent patterns are off.
pub struct PatternsConfig {
    /// Color of file paths.
    pub paths: Option<String>,
    /// Color of URLs.
    pub urls: Option<String>,
    /// Color of numbers.
    pub numbers: Option<String>,
    /// Color of quoted strings.
    pub quoted: Option<String>,
}

/// The value of a [`PatternsConfig`].
pub struct PatternsConfigView {
    pub paths: Option<Seq<char>>,
    pub urls: Option<Seq<char>>,
    pub numbers: Option<Seq<char>>,
    pub quoted: Option<Seq<char>>,
}

impl View for PatternsConfig {
    type V = PatternsConfigView;

    open spec fn view(&self) -> PatternsConfigView {
        PatternsConfigView {
            paths: opt_view(self.paths),
            urls: opt_view(self.urls),
            numbers: opt_view(self.numbers),
            quoted: opt_view(self.quoted),
        }
    }
}

impl DeepCopy for PatternsConfig {
    fn deep_copy(&self) -> (r: PatternsConfig) {
        PatternsConfig {
            paths: copy_opt_string(&self.paths),
            urls: copy_opt_string(&self.urls),
            numbers: copy_opt_string(&self.numbers),
            quoted: copy_opt_string(&self.quoted),
        }
    }
}

/// Automatic highlighting.
pub struct HighlightConfig {
    /// Whether highlighting is on.
    pub enabled: bool,
    /// Keyword → color.
    pub keywords: StrMap<String>,
    /// Pattern colors.
    pub patterns: PatternsConfig,
}

/// The value of a [`HighlightConfig`].
pub struct HighlightConfigView {
    pub enabled: bool,
    pub keywords: Map<Seq<char>, Seq<char>>,
    pub patterns: PatternsConfigView,
}

impl View for HighlightConfig {
    type V = HighlightConfigView;

    open spec fn view(&self) -> HighlightConfigView {
        HighlightConfigView {
            enabled: self.enabled,
            keywords: self.keywords@,
            patterns: self.patterns@,
        }
    }
}

impl DeepCopy for HighlightConfig {
    fn deep_copy(&self) -> (r: HighlightConfig) {
        HighlightConfig {
            enabled: self.enabled,
            keywords: self.keywords.deep_copy(),
            patterns: self.patterns.deep_copy(),
        }
    }
}

/// Hyprland event streaming settings.
pub struct HyprlandConfig {
    /// Whether event streaming is on.
    pub enabled: bool,
    /// Explicit instance signature.
    pub instance_signature: Option<String>,
    /// Explicit socket directory.
    pub socket_dir: Option<String>,
    /// Event name → level name overrides.
    pub event_levels: StrMap<String>,
    /// Events never logged.
    pub ignore_events: Vec<String>,
    /// Scope of event lines.
    pub scope: String,
    /// Event name → scope overrides.
    pub event_scopes: StrMap<String>,
    /// Whether events are rendered readably.
    pub human_readable: bool,
    /// If set, the only events logged.
    pub event_filter: Option<Vec<String>>,
}

/// The value of a [`HyprlandConfig`].
pub struct HyprlandConfigView {
    pub enabled: bool,
    pub instance_signature: Option<Seq<char>>,
    pub socket_dir: Option<Seq<char>>,
    pub event_levels: Map<Seq<char>, Seq<char>>,
    pub ignore_events: Seq<Seq<char>>,
    pub scope: Seq<char>,
    pub event_scopes: Map<Seq<char>, Seq<char>>,
    pub human_readable: bool,
    pub event_filter: Option<Seq<Seq<char>>>,
}

impl View for HyprlandConfig {
    type V = HyprlandConfigView;

    open spec fn view(&self) -> HyprlandConfigView {
        HyprlandConfigView {
            enabled: self.enabled,
            instance_signature: opt_view(self.instance_signature),
            socket_dir: opt_view(self.socket_dir),
            event_levels: self.event_levels@,
            ignore_events: svec_view(self.ignore_events@),
            scope: self.scope@,
            event_scopes: self.event_scopes@,
            human_readable: self.human_readable,
            event_filter: opt_svec_view(self.event_filter),
        }
    }
}

impl DeepCopy for HyprlandConfig {
    fn deep_copy(&self) -> (r: HyprlandConfig) {
        HyprlandConfig {
            enabled: self.enabled,
            instance_signature: copy_opt_string(&self.instance_signature),
            socket_dir: copy_opt_string(&self.socket_dir),
            event_levels: self.event_levels.deep_copy(),
            ignore_events: copy_strings(&self.ignore_events),
            scope: self.scope.clone(),
            event_scopes: self.event_scopes.deep_copy(),
            human_readable: self.human_readable,
            event_filter: copy_opt_strings(&self.event_filter),
        }
    }
}

/// Per-application terminal overrides.
pub struct AppTerminalConfig {
    /// Terminal on/off.
    pub enabled: Option<bool>,
    /// Colors on/off.
    pub colors: Option<bool>,
    /// Icon family.
    pub icons: Option<String>,
    /// Line template.
    pub structure: Option<String>,
}

/// The value of a [`AppTerminalConfig`].
pub struct AppTerminalConfigView {
    pub enabled: Option<bool>,
    pub colors: Option<bool>,
    pub icons: Option<Seq<char>>,
    pub structure: Option<Seq<char>>,
}

impl View for AppTerminalConfig {
    type V = AppTerminalConfigView;

    open spec fn view(&self) -> AppTerminalConfigView {
        AppTerminalConfigView {
            enabled: self.enabled,
            colors: self.colors,
            icons: opt_view(self.icons),
            structure: opt_view(self.structure),
        }
    }
}

impl DeepCopy for AppTerminalConfig {
    fn deep_copy(&self) -> (r: AppTerminalConfig) {
        AppTerminalConfig {
            enabled: self.enabled,
            colors: self.colors,
            icons: copy_opt_string(&self.icons),
            structure: copy_opt_string(&self.structure),
        }
    }
}

/// Per-application file overrides.
pub struct AppFileConfig {
    /// File output on/off.
    pub enabled: Option<bool>,
    /// Root directory.
    pub base_dir: Option<String>,
}

/// The value of a [`AppFileConfig`].
pub struct AppFileConfigView {
    pub enabled: Option<bool>,
    pub base_dir: Option<Seq<char>>,
}

impl View for AppFileConfig {
    type V = AppFileConfigView;

    open spec fn view(&self) -> AppFileConfigView {
        AppFileConfigView {
            enabled: self.enabled,
            base_dir: opt_view(self.base_dir),
        }
    }
}

impl DeepCopy for AppFileConfig {
    fn deep_copy(&self) -> (r: AppFileConfig) {
        AppFileConfig {
            enabled: self.enabled,
            base_dir: copy_opt_string(&self.base_dir),
        }
    }
}

/// Per-application overrides; absent fields inherit the global values.
pub struct AppConfig {
    /// Level name.
    pub level: Option<String>,
    /// Terminal overrides.
    pub terminal: Option<AppTerminalConfig>,
    /// File overrides.
    pub file: Option<AppFileConfig>,
}

/// The value of a [`AppConfig`].
pub struct AppConfigView {
    pub level: Option<Seq<char>>,
    pub terminal: Option<AppTerminalConfigView>,
    pub file: Option<AppFileConfigView>,
}

impl View for AppConfig {
    type V = AppConfigView;

    open spec fn view(&self) -> AppConfigView {
        AppConfigView {
            level: opt_view(self.level),
            terminal: match self.terminal { Some(t) => Some(t@), None => None },
            file: match self.file { Some(t) => Some(t@), None => None },
        }
    }
}

impl DeepCopy for AppConfig {
    fn deep_copy(&self) -> (r: AppConfig) {
        AppConfig {
            level: copy_opt_string(&self.level),
            terminal: match &self.terminal { Some(t) => Some(t.deep_copy()), None => None },
            file: match &self.file { Some(t) => Some(t.deep_copy()), None => None },
        }
    }
}

/// JSON-lines output settings.
pub struct JsonConfig {
    /// Whether JSON output is on.
    pub enabled: bool,
    /// File path.
    pub path: String,
}

/// The value of a [`JsonConfig`].
pub struct JsonConfigView {
    pub enabled: bool,
    pub path: Seq<char>,
}

impl View for JsonConfig {
    type V = JsonConfigView;

    open spec fn view(&self) -> JsonConfigView {
        JsonConfigView {
            enabled: self.enabled,
            path: self.path@,
        }
    }
}

impl DeepCopy for JsonConfig {
    fn deep_copy(&self) -> (r: JsonConfig) {
        JsonConfig {
            enabled: self.enabled,
            path: self.path.clone(),
        }
    }
}
// ---------------------------------------------------------------------------
// Defaults
// ---------------------------------------------------------------------------

/// `directories::ProjectDirs::from("", "", "hyprlog")`: the platform state directory
/// (when the platform has one) and data directory of the application, as strings;
/// `None` when no home directory can be found. The result depends on the
/// environment, so nothing is stated about it.
#[verifier::external_body]
fn hyprlog_project_dirs() -> (r: Option<(Option<String>, String)>) {
    match directories::ProjectDirs::from("", "", "hyprlog") {
        Some(dirs) => {
            let state = match dirs.state_dir() {
                Some(p) => Some(p.to_string_lossy().into_owned()),
                None => None,
            };
            Some((state, dirs.data_dir().to_string_lossy().into_owned()))
        },
        None => None,
    }
}

/// `base` joined with a relative component (`Path::join`).
pub open spec fn path_join(base: Seq<char>, comp: Seq<char>) -> Seq<char> {
    if base.len() == 0 {
        comp
    } else if base.last() == '/' {
        base + comp
    } else {
        base + "/"@ + comp
    }
}

/// Joins a relative component onto a path.
pub fn join_path(base: &str, comp: &str) -> (r: String)
    ensures
        r@ == path_join(base@, comp@),
{
    let mut v = crate::text::chars_of(base);
    if v.len() == 0 {
        return owned(comp);
    }
    if v[v.len() - 1] != '/' {
        push_str(&mut v, "/");
    }
    push_str(&mut v, comp);
    string_of(&v)
}

/// The data root of the application: its state directory, else its data directory.
pub open spec fn data_root(dirs: Option<(Option<Seq<char>>, Seq<char>)>) -> Option<Seq<char>> {
    match dirs {
        Some((state, data)) => match state {
            Some(s) => Some(s),
            None => Some(data),
        },
        None => None,
    }
}

/// The view of the platform directories.
pub open spec fn dirs_view(dirs: Option<(Option<String>, String)>) -> Option<(Option<Seq<char>>, Seq<char>)> {
    match dirs {
        Some((s, d)) => Some((opt_view(s), d@)),
        None => None,
    }
}

/// Default log directory: `<state or data dir>/logs`, or `logs` when there is no home.
pub fn default_log_dir(dirs: Option<(Option<String>, String)>) -> (r: String)
    ensures
        r@ == match data_root(match dirs {
            Some((s, d)) => Some((opt_view(s), d@)),
            None => None,
        }) {
            Some(root) => path_join(root, "logs"@),
            None => "logs"@,
        },
{
    match dirs {
        Some((state, data)) => {
            let root = match state {
                Some(s) => s,
                None => data,
            };
            join_path(root.as_str(), "logs")
        },
        None => owned("logs"),
    }
}

/// Default JSON-lines path: `<state or data dir>/db/hyprlog.jsonl`, or `hyprlog.jsonl`.
pub fn default_json_path(dirs: Option<(Option<String>, String)>) -> (r: String)
    ensures
        r@ == match data_root(match dirs {
            Some((s, d)) => Some((opt_view(s), d@)),
            None => None,
        }) {
            Some(root) => path_join(path_join(root, "db"@), "hyprlog.jsonl"@),
            None => "hyprlog.jsonl"@,
        },
{
    match dirs {
        Some((state, data)) => {
            let root = match state {
                Some(s) => s,
                None => data,
            };
            let db = join_path(root.as_str(), "db");
            join_path(db.as_str(), "hyprlog.jsonl")
        },
        None => owned("hyprlog.jsonl"),
    }
}

impl Default for GeneralConfig {
    fn default() -> (r: GeneralConfig)
        ensures
            r@.level == "info"@,
            r@.app_name is None,
    {
        GeneralConfig { level: owned("info"), app_name: None }
    }
}

impl Default for TerminalConfig {
    fn default() -> (r: TerminalConfig)
        ensures
            r@ == (TerminalConfigView {
                enabled: true,
                colors: true,
                icons: "nerdfont"@,
                structure: "{tag} {scope}  {msg}"@,
            }),
    {
        TerminalConfig {
            enabled: true,
            colors: true,
            icons: owned("nerdfont"),
            structure: owned("{tag} {scope}  {msg}"),
        }
    }
}

impl Default for ShellConfig {
    fn default() -> (r: ShellConfig)
        ensures
            r@.theme == "dracula"@,
    {
        ShellConfig { theme: owned("dracula") }
    }
}

impl Default for RetentionConfig {
    fn default() -> (r: RetentionConfig)
        ensures
            r@.max_age_days == 30,
            r@.max_total_size is None,
    {
        RetentionConfig { max_age_days: 30, max_total_size: None }
    }
}

impl FileConfig {
    /// The defaults with the given log directory.
    pub fn with_base_dir(base_dir: String) -> (r: FileConfig)
        ensures
            r@.enabled == false,
            r@.base_dir == base_dir@,
            r@.path_structure == "{year}/{month}/{app}"@,
            r@.filename_structure == "{scope}_{level}_{day}.log"@,
            r@.content_structure == "{timestamp} {tag} {scope}  {msg}"@,
            r@.timestamp_format == "%Y-%m-%d %H:%M:%S"@,
            r@.retention.max_age_days == 30,
            r@.retention.max_total_size is None,
    {
        FileConfig {
            enabled: false,
            base_dir,
            path_structure: owned("{year}/{month}/{app}"),
            filename_structure: owned("{scope}_{level}_{day}.log"),
            content_structure: owned("{timestamp} {tag} {scope}  {msg}"),
            timestamp_format: owned("%Y-%m-%d %H:%M:%S"),
            retention: RetentionConfig::default(),
        }
    }
}

impl Default for FileConfig {
    /// The base directory comes from the platform's directories for the application.
    fn default() -> (r: FileConfig)
        ensures
            r@.enabled == false,
            r@.path_structure == "{year}/{month}/{app}"@,
            r@.filename_structure == "{scope}_{level}_{day}.log"@,
            r@.content_structure == "{timestamp} {tag} {scope}  {msg}"@,
            r@.timestamp_format == "%Y-%m-%d %H:%M:%S"@,
            r@.retention.max_age_days == 30,
            r@.retention.max_total_size is None,
            r@.base_dir == "logs"@ || exists|root: Seq<char>| r@.base_dir == path_join(root, "logs"@),
    {
        let dirs = hyprlog_project_dirs();
        let ghost d = dirs_view(dirs);
        let base = default_log_dir(dirs);
        proof {
            if let Some(root) = data_root(d) {
                assert(base@ == path_join(root, "logs"@));
            }
        }
        FileConfig::with_base_dir(base)
    }
}

impl Default for CleanupConfig {
    fn default() -> (r: CleanupConfig)
        ensures
            r@ == (CleanupConfigView {
                max_age_days: None,
                max_total_size: None,
                keep_last: None,
                compress_after_days: None,
            }),
    {
        CleanupConfig {
            max_age_days: None,
            max_total_size: None,
            keep_last: None,
            compress_after_days: None,
        }
    }
}

impl Default for MessageConfigFile {
    fn default() -> (r: MessageConfigFile)
        ensures
            r@.transform == "none"@,
    {
        MessageConfigFile { transform: owned("none") }
    }
}

impl Default for ScopeConfigFile {
    fn default() -> (r: ScopeConfigFile)
        ensures
            r@ == (ScopeConfigFileView { min_width: 12, alignment: "left"@, transform: "none"@ }),
    {
        ScopeConfigFile { min_width: 12, alignment: owned("left"), transform: owned("none") }
    }
}

impl Default for TagConfigFile {
    fn default() -> (r: TagConfigFile)
        ensures
            r@ == (TagConfigFileView {
                prefix: "["@,
                suffix: "]"@,
                transform: "uppercase"@,
                min_width: 5,
                alignment: "center"@,
                labels: Map::empty(),
            }),
    {
        TagConfigFile {
            prefix: owned("["),
            suffix: owned("]"),
            transform: owned("uppercase"),
            min_width: 5,
            alignment: owned("center"),
            labels: StrMap::new(),
        }
    }
}

impl Default for IconsConfig {
    fn default() -> (r: IconsConfig)
        ensures
            r@.nerdfont == Map::<Seq<char>, Seq<char>>::empty(),
            r@.ascii == Map::<Seq<char>, Seq<char>>::empty(),
    {
        IconsConfig { nerdfont: StrMap::new(), ascii: StrMap::new() }
    }
}

impl Default for PatternsConfig {
    fn default() -> (r: PatternsConfig)
        ensures
            r@ == (PatternsConfigView { paths: None, urls: None, numbers: None, quoted: None }),
    {
        PatternsConfig { paths: None, urls: None, numbers: None, quoted: None }
    }
}

impl Default for HighlightConfig {
    fn default() -> (r: HighlightConfig)
        ensures
            r@.enabled,
            r@.keywords == Map::<Seq<char>, Seq<char>>::empty(),
            r@.patterns == (PatternsConfigView { paths: None, urls: None, numbers: None, quoted: None }),
    {
        HighlightConfig { enabled: true, keywords: StrMap::new(), patterns: PatternsConfig::default() }
    }
}

impl Default for HyprlandConfig {
    fn default() -> (r: HyprlandConfig)
        ensures
            r@ == (HyprlandConfigView {
                enabled: false,
                instance_signature: None,
                socket_dir: None,
                event_levels: Map::empty(),
                ignore_events: Seq::empty(),
                scope: "hyprland"@,
                event_scopes: Map::empty(),
                human_readable: true,
                event_filter: None,
            }),
    {
        let r = HyprlandConfig {
            enabled: false,
            instance_signature: None,
            socket_dir: None,
            event_levels: StrMap::new(),
            ignore_events: Vec::new(),
            scope: owned("hyprland"),
            event_scopes: StrMap::new(),
            human_readable: true,
            event_filter: None,
        };
        assert(svec_view(r.ignore_events@) =~= Seq::<Seq<char>>::empty());
        r
    }
}

impl Default for AppTerminalConfig {
    fn default() -> (r: AppTerminalConfig)
        ensures
            r@ == (AppTerminalConfigView { enabled: None, colors: None, icons: None, structure: None }),
    {
        AppTerminalConfig { enabled: None, colors: None, icons: None, structure: None }
    }
}

impl Default for AppFileConfig {
    fn default() -> (r: AppFileConfig)
        ensures
            r@ == (AppFileConfigView { enabled: None, base_dir: None }),
    {
        AppFileConfig { enabled: None, base_dir: None }
    }
}

impl Default for AppConfig {
    fn default() -> (r: AppConfig)
        ensures
            r@ == (AppConfigView { level: None, terminal: None, file: None }),
    {
        AppConfig { level: None, terminal: None, file: None }
    }
}

impl JsonConfig {
    /// Disabled JSON output writing to `path`.
    pub fn with_path(path: String) -> (r: JsonConfig)
        ensures
            r@.enabled == false,
            r@.path == path@,
    {
        JsonConfig { enabled: false, path }
    }
}

impl Default for JsonConfig {
    /// The path comes from the platform's directories for the application.
    fn default() -> (r: JsonConfig)
        ensures
            r@.enabled == false,
            r@.path == "hyprlog.jsonl"@ || exists|root: Seq<char>|
                r@.path == path_join(path_join(root, "db"@), "hyprlog.jsonl"@),
    {
        let dirs = hyprlog_project_dirs();
        let ghost d = dirs_view(dirs);
        let path = default_json_path(dirs);
        proof {
            if let Some(root) = data_root(d) {
                assert(path@ == path_join(path_join(root, "db"@), "hyprlog.jsonl"@));
            }
        }
        JsonConfig::with_path(path)
    }
}

} // verus!
