//! Configuration: the schema, `source = "…"` include extraction, include merging,
//! per-application overrides and the typed readings of string settings.
pub mod error;
pub mod structs;

use crate::fmt::color::{spec_from_hex, Color};
use crate::fmt::icon::IconType;
use crate::fmt::tag::{Alignment, Transform};
use crate::level::Level;
use crate::strmap::{DeepCopy, StrMap};
use crate::text::{
    chars_eq_str, chars_of, copy_opt_string, find_char_from, lines, lines_of, opt_view, owned,
    push_chars, split_once, split_once_char, lowercased, string_of, strip_both,
    svec_view, to_lowercase, trim, trim_chars, trim_matches, vviews,
};
use structs::{
    AppConfig, AppConfigView, CleanupConfig, CleanupConfigView, FileConfig, FileConfigView,
    GeneralConfig, GeneralConfigView, HighlightConfig, HighlightConfigView, HyprlandConfig,
    HyprlandConfigView, IconsConfig, IconsConfigView, JsonConfig, JsonConfigView,
    MessageConfigFile, MessageConfigFileView, PresetConfig, PresetConfigView, ScopeConfigFile,
    ScopeConfigFileView, ShellConfig, ShellConfigView, TagConfigFile, TagConfigFileView,
    TerminalConfig, TerminalConfigView,
};
use vstd::prelude::*;

verus! {

/// The whole configuration.
pub struct Config {
    pub general: GeneralConfig,
    pub terminal: TerminalConfig,
    pub shell: ShellConfig,
    pub file: FileConfig,
    pub json: JsonConfig,
    pub hyprland: HyprlandConfig,
    pub cleanup: CleanupConfig,
    pub tag: TagConfigFile,
    pub scope: ScopeConfigFile,
    pub message: MessageConfigFile,
    pub highlight: HighlightConfig,
    /// Named colors (`name` → `#rrggbb`).
    pub colors: StrMap<String>,
    pub icons: IconsConfig,
    /// Named presets.
    pub presets: StrMap<PresetConfig>,
    /// Per-application overrides.
    pub apps: StrMap<AppConfig>,
}

/// The value of a configuration.
pub struct ConfigView {
    pub general: GeneralConfigView,
    pub terminal: TerminalConfigView,
    pub shell: ShellConfigView,
    pub file: FileConfigView,
    pub json: JsonConfigView,
    pub hyprland: HyprlandConfigView,
    pub cleanup: CleanupConfigView,
    pub tag: TagConfigFileView,
    pub scope: ScopeConfigFileView,
    pub message: MessageConfigFileView,
    pub highlight: HighlightConfigView,
    pub colors: Map<Seq<char>, Seq<char>>,
    pub icons: IconsConfigView,
    pub presets: Map<Seq<char>, PresetConfigView>,
    pub apps: Map<Seq<char>, AppConfigView>,
}

impl View for Config {
    type V = ConfigView;

    open spec fn view(&self) -> ConfigView {
        ConfigView {
            general: self.general@,
            terminal: self.terminal@,
            shell: self.shell@,
            file: self.file@,
            json: self.json@,
            hyprland: self.hyprland@,
            cleanup: self.cleanup@,
            tag: self.tag@,
            scope: self.scope@,
            message: self.message@,
            highlight: self.highlight@,
            colors: self.colors@,
            icons: self.icons@,
            presets: self.presets@,
            apps: self.apps@,
        }
    }
}

impl DeepCopy for Config {
    fn deep_copy(&self) -> (r: Config) {
        Config {
            general: self.general.deep_copy(),
            terminal: self.terminal.deep_copy(),
            shell: self.shell.deep_copy(),
            file: self.file.deep_copy(),
            json: self.json.deep_copy(),
            hyprland: self.hyprland.deep_copy(),
            cleanup: self.cleanup.deep_copy(),
            tag: self.tag.deep_copy(),
            scope: self.scope.deep_copy(),
            message: self.message.deep_copy(),
            highlight: self.highlight.deep_copy(),
            colors: self.colors.deep_copy(),
            icons: self.icons.deep_copy(),
            presets: self.presets.deep_copy(),
            apps: self.apps.deep_copy(),
        }
    }
}

impl Default for Config {
    /// Every section at its default; the file and JSON paths come from the platform.
    fn default() -> (r: Config)
        ensures
            r@.general.level == "info"@,
            r@.terminal.enabled,
            r@.colors == Map::<Seq<char>, Seq<char>>::empty(),
            r@.presets == Map::<Seq<char>, PresetConfigView>::empty(),
            r@.apps == Map::<Seq<char>, AppConfigView>::empty(),
    {
        Config {
            general: GeneralConfig::default(),
            terminal: TerminalConfig::default(),
            shell: ShellConfig::default(),
            file: FileConfig::default(),
            json: JsonConfig::default(),
            hyprland: HyprlandConfig::default(),
            cleanup: CleanupConfig::default(),
            tag: TagConfigFile::default(),
            scope: ScopeConfigFile::default(),
            message: MessageConfigFile::default(),
            highlight: HighlightConfig::default(),
            colors: StrMap::new(),
            icons: IconsConfig::default(),
            presets: StrMap::new(),
            apps: StrMap::new(),
        }
    }
}

/// `a` with the table entries of an included configuration `b` that `a` does
/// not have: `a`'s own entries win, and every other setting is `a`'s.
pub open spec fn spec_merge(a: ConfigView, b: ConfigView) -> ConfigView {
    (ConfigView {
        colors: b.colors.union_prefer_right(a.colors),
        presets: b.presets.union_prefer_right(a.presets),
        icons: IconsConfigView {
            nerdfont: b.icons.nerdfont.union_prefer_right(a.icons.nerdfont),
            ascii: b.icons.ascii.union_prefer_right(a.icons.ascii),
        },
        tag: TagConfigFileView {
            labels: b.tag.labels.union_prefer_right(a.tag.labels),
            ..a.tag
        },
        highlight: HighlightConfigView {
            keywords: b.highlight.keywords.union_prefer_right(a.highlight.keywords),
            ..a.highlight
        },
        apps: b.apps.union_prefer_right(a.apps),
        ..a
    })
}

/// A configuration with the configurations it includes merged in, in order.
pub open spec fn merge_all(base: ConfigView, included: Seq<ConfigView>) -> ConfigView
    decreases included.len(),
{
    if included.len() == 0 {
        base
    } else {
        spec_merge(merge_all(base, included.drop_last()), included.last())
    }
}

/// The views of a list of configurations.
pub open spec fn configs_view(v: Seq<Config>) -> Seq<ConfigView> {
    v.map_values(|c: Config| c@)
}

/// What loading a configuration file does: a missing file gives the defaults;
/// a file that is already being loaded further up the chain of includes is a
/// cycle; any other file is read.
pub enum IncludeStep {
    UseDefault,
    Cycle(String),
    Read,
}

/// Decides the next step of loading the file at `canonical`, given whether it
/// exists and the chain of files whose includes are being loaded.
pub fn include_step(chain: &Vec<String>, canonical: &str, exists: bool) -> (r: IncludeStep)
    ensures
        !exists ==> r is UseDefault,
        exists && svec_view(chain@).contains(canonical@) ==> (r matches IncludeStep::Cycle(p)
            && p@ == canonical@),
        exists && !svec_view(chain@).contains(canonical@) ==> r is Read,
{
    if !exists {
        IncludeStep::UseDefault
    } else if crate::text::strings_contain(chain, canonical) {
        IncludeStep::Cycle(owned(canonical))
    } else {
        IncludeStep::Read
    }
}

/// The files whose includes are being loaded, outermost first. A file joins
/// when it is read and leaves when its includes are done, so no file is in the
/// chain twice: meeting one again is a cycle, while a file included from two
/// places (a diamond) is read each time.
pub struct IncludeChain {
    files: Vec<String>,
}

impl View for IncludeChain {
    type V = Seq<Seq<char>>;

    closed spec fn view(&self) -> Seq<Seq<char>> {
        svec_view(self.files@)
    }
}

impl IncludeChain {
    /// No file occurs twice in the chain.
    #[verifier::type_invariant]
    spec fn no_file_twice(self) -> bool {
        svec_view(self.files@).no_duplicates()
    }

    /// An empty chain, before the top-level file.
    pub fn new() -> (r: IncludeChain)
        ensures
            r@ == Seq::<Seq<char>>::empty(),
    {
        let c = IncludeChain { files: Vec::new() };
        assert(c@ =~= Seq::<Seq<char>>::empty());
        c
    }

    /// Decides the next step for the file at `canonical` (see [`include_step`]);
    /// a file that is to be read joins the chain.
    pub fn step(&mut self, canonical: &str, exists: bool) -> (r: IncludeStep)
        ensures
            !exists ==> r is UseDefault && final(self)@ == old(self)@,
            exists && old(self)@.contains(canonical@) ==> (r matches IncludeStep::Cycle(p)
                && p@ == canonical@) && final(self)@ == old(self)@,
            exists && !old(self)@.contains(canonical@) ==> r is Read && final(self)@ == old(
                self,
            )@.push(canonical@),
            final(self)@.no_duplicates(),
    {
        proof {
            use_type_invariant(&*self);
        }
        let r = include_step(&self.files, canonical, exists);
        if let IncludeStep::Read = r {
            let ghost before = self.files@;
            let entry = owned(canonical);
            proof {
                assert(svec_view(before.push(entry)) =~= svec_view(before).push(canonical@));
            }
            let mut files: Vec<String> = Vec::new();
            std::mem::swap(&mut files, &mut self.files);
            files.push(entry);
            self.files = files;
        }
        proof {
            use_type_invariant(&*self);
        }
        r
    }

    /// The file that joined last is done and leaves the chain (an empty chain stays empty).
    pub fn finish(&mut self)
        ensures
            old(self)@.len() > 0 ==> final(self)@ == old(self)@.drop_last(),
            old(self)@.len() == 0 ==> final(self)@ == old(self)@,
            final(self)@.no_duplicates(),
    {
        proof {
            use_type_invariant(&*self);
        }
        let ghost before = self.files@;
        let mut files: Vec<String> = Vec::new();
        std::mem::swap(&mut files, &mut self.files);
        let _ = files.pop();
        proof {
            if before.len() > 0 {
                assert(svec_view(files@) =~= svec_view(before).drop_last());
                assert forall|i: int, j: int|
                    0 <= i < j < svec_view(files@).len() implies svec_view(files@)[i]
                    != svec_view(files@)[j] by {
                    assert(svec_view(files@)[i] == svec_view(before)[i]);
                    assert(svec_view(files@)[j] == svec_view(before)[j]);
                }
            }
        }
        self.files = files;
        proof {
            use_type_invariant(&*self);
        }
    }
}

/// Merges the included configurations into `base`, in order.
pub fn merge_includes(base: Config, included: &Vec<Config>) -> (r: Config)
    ensures
        r@ == merge_all(base@, configs_view(included@)),
{
    let mut config = base;
    let ghost b = base@;
    let mut i: usize = 0;
    assert(configs_view(included@).take(0) =~= Seq::<ConfigView>::empty());
    while i < included.len()
        invariant
            i <= included@.len(),
            config@ == merge_all(b, configs_view(included@).take(i as int)),
        decreases included@.len() - i,
    {
        let next = included[i].deep_copy();
        proof {
            let t = configs_view(included@).take(i + 1);
            assert(t.drop_last() =~= configs_view(included@).take(i as int));
            assert(t.last() == included@[i as int]@);
        }
        config.merge(next);
        i = i + 1;
    }
    assert(configs_view(included@).take(included@.len() as int) =~= configs_view(included@));
    config
}

// ---------------------------------------------------------------------------
// `source = "…"` directives
// ---------------------------------------------------------------------------

/// Whether a trimmed line is a `source = ...` directive: it has a `=` and the
/// key before the first one is exactly `source`.
pub open spec fn is_source_line(t: Seq<char>) -> bool {
    match split_once_char(t, '=') {
        Some((key, _)) => trim(key) == "source"@,
        None => false,
    }
}

/// Whether a trimmed line is a `source = ...` directive.
fn source_line(t: &Vec<char>) -> (r: bool)
    ensures
        r == is_source_line(t@),
{
    match split_once(t, '=') {
        Some((key, _)) => chars_eq_str(&trim_chars(&key), "source"),
        None => false,
    }
}

/// The text between the first and the second `=` (or the end).
pub open spec fn second_piece(t: Seq<char>) -> Seq<char> {
    match split_once_char(t, '=') {
        Some((_, after)) => match find_char_from(after, '=', 0) {
            Some(j) => after.subrange(0, j),
            None => after,
        },
        None => Seq::empty(),
    }
}

/// The path of a source directive: the second `=`-piece, trimmed, without
/// surrounding double and then single quotes; `None` when that is empty.
pub open spec fn source_path(t: Seq<char>) -> Option<Seq<char>> {
    let p = trim_matches(trim_matches(trim(second_piece(t)), '"'), '\'');
    if p.len() > 0 {
        Some(p)
    } else {
        None
    }
}

/// Sources and remaining text of a list of lines.
pub open spec fn extract_lines(ls: Seq<Seq<char>>) -> (Seq<Seq<char>>, Seq<char>)
    decreases ls.len(),
{
    if ls.len() == 0 {
        (Seq::empty(), Seq::empty())
    } else {
        let (srcs, rem) = extract_lines(ls.drop_last());
        let l = ls.last();
        let t = trim(l);
        if is_source_line(t) {
            match source_path(t) {
                Some(p) => (srcs.push(p), rem),
                None => (srcs, rem),
            }
        } else {
            (srcs, rem + l + "\n"@)
        }
    }
}

/// The `source` paths of a config text, and the text without the directive lines
/// (each kept line followed by a newline).
pub open spec fn spec_extract_sources(content: Seq<char>) -> (Seq<Seq<char>>, Seq<char>) {
    extract_lines(lines_of(content))
}

fn source_path_of(t: &Vec<char>) -> (r: Option<Vec<char>>)
    ensures
        match (r, source_path(t@)) {
            (Some(a), Some(b)) => a@ == b,
            (None, None) => true,
            _ => false,
        },
{
    let piece: Vec<char> = match split_once(t, '=') {
        Some((_, after)) => {
            proof {
                crate::text::lemma_find_char_from(after@, '=', 0);
            }
            match crate::text::find_char(&after, '=', 0) {
                Some(j) => crate::text::slice_chars(&after, 0, j),
                None => after,
            }
        },
        None => Vec::new(),
    };
    assert(piece@ == second_piece(t@));
    let p1 = trim_chars(&piece);
    let p2 = strip_both(&p1, '"');
    let p3 = strip_both(&p2, '\'');
    if p3.len() > 0 {
        Some(p3)
    } else {
        None
    }
}

/// Splits `source = "path"` directives off a config text: returns the paths
/// (trimmed, unquoted, non-empty) and the other lines, each followed by `\n`.
pub fn extract_sources(content: &str) -> (r: (Vec<String>, String))
    ensures
        crate::text::svec_view(r.0@) == spec_extract_sources(content@).0,
        r.1@ == spec_extract_sources(content@).1,
{
    let v = chars_of(content);
    let ls = lines(&v);
    let mut sources: Vec<String> = Vec::new();
    let mut remaining: Vec<char> = Vec::new();
    let mut i: usize = 0;
    while i < ls.len()
        invariant
            i <= ls@.len(),
            vviews(ls@) == lines_of(content@),
            v@ == content@,
            (crate::text::svec_view(sources@), remaining@) == extract_lines(
                vviews(ls@).take(i as int),
            ),
        decreases ls@.len() - i,
    {
        let line = &ls[i];
        let t = trim_chars(line);
        let ghost before_s = sources@;
        let ghost before_r = remaining@;
        proof {
            let pre = vviews(ls@).take(i + 1);
            assert(pre.drop_last() =~= vviews(ls@).take(i as int));
            assert(pre.last() == line@);
        }
        let is_src = source_line(&t);
        if is_src {
            match source_path_of(&t) {
                Some(p) => {
                    sources.push(string_of(&p));
                    assert(crate::text::svec_view(sources@) =~= crate::text::svec_view(
                        before_s,
                    ).push(p@));
                },
                None => {},
            }
        } else {
            push_chars(&mut remaining, line);
            remaining.push('\n');
            proof {
                reveal_strlit("\n");
                assert(remaining@ =~= before_r + line@ + "\n"@);
            }
        }
        i = i + 1;
    }
    assert(vviews(ls@).take(ls@.len() as int) =~= vviews(ls@));
    (sources, string_of(&remaining))
}

// ---------------------------------------------------------------------------
// Typed readings of string settings
// ---------------------------------------------------------------------------

/// The icon family named by a lowercased string; NerdFont for anything unknown.
pub open spec fn spec_icon_type_from_lower(s: Seq<char>) -> IconType {
    if s == "ascii"@ {
        IconType::Ascii
    } else if s == "none"@ {
        IconType::Disabled
    } else {
        IconType::NerdFont
    }
}

/// The casing named by a lowercased string (with short aliases); unchanged for anything unknown.
pub open spec fn spec_transform_from_lower(s: Seq<char>) -> Transform {
    if s == "uppercase"@ || s == "upper"@ {
        Transform::Uppercase
    } else if s == "lowercase"@ || s == "lower"@ {
        Transform::Lowercase
    } else if s == "capitalize"@ || s == "cap"@ {
        Transform::Capitalize
    } else {
        Transform::Unchanged
    }
}

/// Tag alignment named by a lowercased string; centered for anything unknown.
pub open spec fn spec_tag_alignment_from_lower(s: Seq<char>) -> Alignment {
    if s == "left"@ {
        Alignment::Left
    } else if s == "right"@ {
        Alignment::Right
    } else {
        Alignment::Center
    }
}

/// Scope alignment named by a lowercased string; left for anything unknown.
pub open spec fn spec_scope_alignment_from_lower(s: Seq<char>) -> Alignment {
    if s == "right"@ {
        Alignment::Right
    } else if s == "center"@ {
        Alignment::Center
    } else {
        Alignment::Left
    }
}

/// The icon family of a lowercased name.
pub fn icon_type_from_lower(s: &str) -> (r: IconType)
    ensures
        r == spec_icon_type_from_lower(s@),
{
    let v = chars_of(s);
    if chars_eq_str(&v, "ascii") {
        IconType::Ascii
    } else if chars_eq_str(&v, "none") {
        IconType::Disabled
    } else {
        IconType::NerdFont
    }
}

/// The casing of a lowercased name.
pub fn transform_from_lower(s: &str) -> (r: Transform)
    ensures
        r == spec_transform_from_lower(s@),
{
    let v = chars_of(s);
    if chars_eq_str(&v, "uppercase") || chars_eq_str(&v, "upper") {
        Transform::Uppercase
    } else if chars_eq_str(&v, "lowercase") || chars_eq_str(&v, "lower") {
        Transform::Lowercase
    } else if chars_eq_str(&v, "capitalize") || chars_eq_str(&v, "cap") {
        Transform::Capitalize
    } else {
        Transform::Unchanged
    }
}

/// The tag alignment of a lowercased name.
pub fn tag_alignment_from_lower(s: &str) -> (r: Alignment)
    ensures
        r == spec_tag_alignment_from_lower(s@),
{
    let v = chars_of(s);
    if chars_eq_str(&v, "left") {
        Alignment::Left
    } else if chars_eq_str(&v, "right") {
        Alignment::Right
    } else {
        Alignment::Center
    }
}

/// The scope alignment of a lowercased name.
pub fn scope_alignment_from_lower(s: &str) -> (r: Alignment)
    ensures
        r == spec_scope_alignment_from_lower(s@),
{
    let v = chars_of(s);
    if chars_eq_str(&v, "right") {
        Alignment::Right
    } else if chars_eq_str(&v, "center") {
        Alignment::Center
    } else {
        Alignment::Left
    }
}

// ---------------------------------------------------------------------------
// Per-application overrides
// ---------------------------------------------------------------------------

/// An optional override: the new value when present.
pub open spec fn or_keep<T>(o: Option<T>, keep: T) -> T {
    match o {
        Some(x) => x,
        None => keep,
    }
}

/// The configuration as seen by application `app`: its `[apps.<app>]` entries
/// replace the level, the terminal fields and the file fields they set.
pub open spec fn spec_for_app(c: ConfigView, app: Seq<char>) -> ConfigView {
    if c.apps.contains_key(app) {
        let a = c.apps[app];
        let general = GeneralConfigView { level: or_keep(a.level, c.general.level), ..c.general };
        let terminal = match a.terminal {
            Some(t) => TerminalConfigView {
                enabled: or_keep(t.enabled, c.terminal.enabled),
                colors: or_keep(t.colors, c.terminal.colors),
                icons: or_keep(t.icons, c.terminal.icons),
                structure: or_keep(t.structure, c.terminal.structure),
            },
            None => c.terminal,
        };
        let file = match a.file {
            Some(f) => FileConfigView {
                enabled: or_keep(f.enabled, c.file.enabled),
                base_dir: or_keep(f.base_dir, c.file.base_dir),
                ..c.file
            },
            None => c.file,
        };
        ConfigView { general, terminal, file, ..c }
    } else {
        c
    }
}

fn apply_terminal(t: &mut TerminalConfig, o: &structs::AppTerminalConfig)
    ensures
        final(t)@ == (TerminalConfigView {
            enabled: or_keep(o@.enabled, old(t)@.enabled),
            colors: or_keep(o@.colors, old(t)@.colors),
            icons: or_keep(o@.icons, old(t)@.icons),
            structure: or_keep(o@.structure, old(t)@.structure),
        }),
{
    if let Some(enabled) = o.enabled {
        t.enabled = enabled;
    }
    if let Some(colors) = o.colors {
        t.colors = colors;
    }
    if let Some(icons) = &o.icons {
        t.icons = icons.clone();
    }
    if let Some(structure) = &o.structure {
        t.structure = structure.clone();
    }
}

fn apply_file(f: &mut FileConfig, o: &structs::AppFileConfig)
    ensures
        final(f)@ == (FileConfigView {
            enabled: or_keep(o@.enabled, old(f)@.enabled),
            base_dir: or_keep(o@.base_dir, old(f)@.base_dir),
            ..old(f)@
        }),
{
    if let Some(enabled) = o.enabled {
        f.enabled = enabled;
    }
    if let Some(base_dir) = &o.base_dir {
        f.base_dir = base_dir.clone();
    }
}

impl Config {
    /// A copy with the same settings.
    pub fn deep_copy(&self) -> (r: Config)
        ensures
            r@ == self@,
    {
        DeepCopy::deep_copy(self)
    }

    /// Folds an included config into this one: for every table (colors, presets,
    /// icon overrides, tag labels, highlight keywords, apps) the entries of `other`
    /// are added where the key is not present yet. Nothing else changes.
    pub fn merge(&mut self, other: Config)
        ensures
            final(self)@ == spec_merge(old(self)@, other@),
    {
        self.colors.merge_absent(&other.colors);
        self.presets.merge_absent(&other.presets);
        self.icons.nerdfont.merge_absent(&other.icons.nerdfont);
        self.icons.ascii.merge_absent(&other.icons.ascii);
        self.tag.labels.merge_absent(&other.tag.labels);
        self.highlight.keywords.merge_absent(&other.highlight.keywords);
        self.apps.merge_absent(&other.apps);
    }

    /// The configuration with the overrides of `[apps.<app_name>]` applied.
    pub fn for_app(&self, app_name: &str) -> (r: Config)
        ensures
            r@ == spec_for_app(self@, app_name@),
    {
        let mut config = self.deep_copy();
        if let Some(app) = self.apps.get(app_name) {
            if let Some(level) = &app.level {
                config.general.level = level.clone();
            }
            if let Some(terminal) = &app.terminal {
                apply_terminal(&mut config.terminal, terminal);
            }
            if let Some(file) = &app.file {
                apply_file(&mut config.file, file);
            }
        }
        config
    }

    /// The minimum level; `info` when the configured name is unknown.
    pub fn parse_level(&self) -> (r: Level)
        ensures
            r == match Level::spec_parse(self@.general.level) {
                Some(l) => l,
                None => Level::Info,
            },
    {
        match Level::parse(self.general.level.as_str()) {
            Ok(l) => l,
            Err(_) => Level::Info,
        }
    }

    /// The terminal icon family (case-insensitive; NerdFont when unknown).
    pub fn parse_icon_type(&self) -> (r: IconType)
        ensures
            r == spec_icon_type_from_lower(lowercased(self@.terminal.icons)),
    {
        let lower = to_lowercase(self.terminal.icons.as_str());
        icon_type_from_lower(lower.as_str())
    }

    /// The tag casing (case-insensitive, with aliases).
    pub fn parse_transform(&self) -> (r: Transform)
        ensures
            r == spec_transform_from_lower(lowercased(self@.tag.transform)),
    {
        let lower = to_lowercase(self.tag.transform.as_str());
        transform_from_lower(lower.as_str())
    }

    /// The tag alignment (case-insensitive; centered when unknown).
    pub fn parse_alignment(&self) -> (r: Alignment)
        ensures
            r == spec_tag_alignment_from_lower(lowercased(self@.tag.alignment)),
    {
        let lower = to_lowercase(self.tag.alignment.as_str());
        tag_alignment_from_lower(lower.as_str())
    }

    /// The scope casing (case-insensitive, with aliases).
    pub fn parse_scope_transform(&self) -> (r: Transform)
        ensures
            r == spec_transform_from_lower(lowercased(self@.scope.transform)),
    {
        let lower = to_lowercase(self.scope.transform.as_str());
        transform_from_lower(lower.as_str())
    }

    /// The scope alignment (case-insensitive; left when unknown).
    pub fn parse_scope_alignment(&self) -> (r: Alignment)
        ensures
            r == spec_scope_alignment_from_lower(lowercased(self@.scope.alignment)),
    {
        let lower = to_lowercase(self.scope.alignment.as_str());
        scope_alignment_from_lower(lower.as_str())
    }

    /// The message casing (case-insensitive, with aliases).
    pub fn parse_message_transform(&self) -> (r: Transform)
        ensures
            r == spec_transform_from_lower(lowercased(self@.message.transform)),
    {
        let lower = to_lowercase(self.message.transform.as_str());
        transform_from_lower(lower.as_str())
    }

    /// A named color, parsed from its hex string.
    pub fn get_color(&self, name: &str) -> (r: Option<Color>)
        ensures
            r == (if self@.colors.contains_key(name@) {
                Some(spec_from_hex(self@.colors[name@]))
            } else {
                None
            }),
    {
        match self.colors.get(name) {
            Some(hex) => Some(Color::from_hex(hex.as_str())),
            None => None,
        }
    }
}


/// An application without an `[apps.<name>]` entry sees the configuration unchanged.
pub proof fn law_for_app_without_entry(c: ConfigView, app: Seq<char>)
    requires
        !c.apps.contains_key(app),
    ensures
        spec_for_app(c, app) == c,
{
}

} // verus!
