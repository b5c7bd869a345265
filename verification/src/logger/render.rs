//! What an output writes for a record: the line a terminal prints and the
//! stream it goes to, and the directory, file name and line a log file gets.
//! Lines are templates filled with the placeholders `{tag}`, `{icon}`,
//! `{scope}`, `{msg}`, `{level}`, `{app}`, `{timestamp}`, `{year}`,
//! `{month}` and `{day}`.
use crate::fmt::color::{colorize, spec_fg_ansi, spec_reset, Color};
use crate::fmt::format::{spec_parse_template, spec_render_template, FormatTemplate, FormatValuesView};
use crate::fmt::highlight::{inject_tags, spec_inject_tags};
use crate::fmt::icon::{builtin_icons, IconSet, IconType};
use crate::fmt::scope::{spec_format_scope, ScopeConfig};
use crate::fmt::style::{parse, render, render_plain, spec_parse, spec_plain_all, spec_render_all};
use crate::fmt::tag::{spec_apply, spec_format_tag, spec_tag_with_label, Alignment, TagConfig, TagConfigView, Transform};
use crate::level::Level;
use crate::logger::output::{FileSettings, FileSettingsView, JsonSettings, TerminalSettings};
use crate::logger::{LogRecord, LogRecordView};
use crate::strmap::StrMap;
use crate::cli::commands::{json_string, spec_json_string};
use crate::text::{copy_opt_string, owned, opt_view, push_str, string_of};
use vstd::prelude::*;

verus! {

/// Text with its style tags rendered as colors, or left out.
pub open spec fn spec_styled(text: Seq<char>, colors: bool, named: Map<Seq<char>, Color>) -> Seq<char> {
    if colors {
        spec_render_all(spec_parse(text), named)
    } else {
        spec_plain_all(spec_parse(text))
    }
}

/// Renders or removes the style tags of `text`.
pub fn styled(text: &str, colors: bool, named: &StrMap<Color>) -> (r: String)
    ensures
        r@ == spec_styled(text@, colors, named@),
{
    let segments = parse(text);
    if colors {
        render(&segments, named)
    } else {
        render_plain(&segments)
    }
}

/// The tag style used when an output sets none: `[`, `]`, uppercase, width 5, centered.
pub open spec fn default_tag() -> TagConfigView {
    TagConfigView {
        prefix: "["@,
        suffix: "]"@,
        transform: Transform::Uppercase,
        min_width: 5,
        alignment: Alignment::Center,
        labels: Map::empty(),
    }
}

/// The tag of a record: its label override, else its level, in the output's tag style.
pub open spec fn spec_record_tag(c: Option<TagConfigView>, rec: LogRecordView) -> Seq<char> {
    let style = match c {
        Some(s) => s,
        None => default_tag(),
    };
    match rec.label_override {
        Some(l) => spec_tag_with_label(style, l),
        None => spec_format_tag(style, rec.level),
    }
}

fn record_tag(c: &Option<TagConfig>, rec: &LogRecord) -> (r: String)
    ensures
        r@ == spec_record_tag(
            match c {
                Some(s) => Some(s@),
                None => None,
            },
            rec@,
        ),
{
    let style = match c {
        Some(s) => s.deep_copy(),
        None => TagConfig::new(),
    };
    proof {
        if c is None {
            assert(style@.labels =~= Map::<Level, Seq<char>>::empty());
            assert(style@ == default_tag());
        }
    }
    match &rec.label_override {
        Some(l) => style.format_with_label(rec.level, l.as_str()),
        None => style.format(rec.level),
    }
}

/// The color set last for a level, if any.
pub open spec fn level_color(cs: Seq<(Level, Color)>, level: Level) -> Option<Color>
    decreases cs.len(),
{
    if cs.len() == 0 {
        None
    } else if cs.last().0 == level {
        Some(cs.last().1)
    } else {
        level_color(cs.drop_last(), level)
    }
}

fn find_level_color(cs: &Vec<(Level, Color)>, level: Level) -> (r: Option<Color>)
    ensures
        r == level_color(cs@, level),
{
    let mut i: usize = cs.len();
    assert(cs@.take(cs@.len() as int) =~= cs@);
    while i > 0
        invariant
            i <= cs@.len(),
            level_color(cs@, level) == level_color(cs@.take(i as int), level),
        decreases i,
    {
        proof {
            assert(cs@.take(i as int).drop_last() =~= cs@.take(i - 1));
        }
        if cs[i - 1].0 == level {
            return Some(cs[i - 1].1);
        }
        i = i - 1;
    }
    None
}

/// The message as a terminal shows it: highlighted when highlighting is set,
/// then with the message casing applied when that is set.
pub open spec fn terminal_message(t: TerminalSettings, msg: Seq<char>) -> Seq<char> {
    let m = match t.highlight {
        Some(h) => spec_inject_tags(msg, h),
        None => msg,
    };
    match t.message_transform {
        Some(tr) => spec_apply(tr, m),
        None => m,
    }
}

/// The icon of a level in the output's icon set (the Nerd Font set when none is set).
pub open spec fn terminal_icon(t: TerminalSettings, level: Level) -> Seq<char> {
    let icons = match t@.icons {
        Some(i) => i.icons,
        None => builtin_icons(IconType::NerdFont),
    };
    if icons.contains_key(level) {
        icons[level]
    } else {
        Seq::empty()
    }
}

/// The values a terminal fills its template with.
pub open spec fn terminal_values(t: TerminalSettings, rec: LogRecordView) -> FormatValuesView {
    let colors = match t.colors {
        Some(c) => c,
        None => true,
    };
    let tag = spec_record_tag(t@.tag_config, rec);
    let tag = match level_color(t@.level_colors, rec.level) {
        Some(c) => if colors {
            spec_fg_ansi(c) + tag + spec_reset()
        } else {
            tag
        },
        None => tag,
    };
    let scope_style = match t.scope_config {
        Some(s) => s,
        None => ScopeConfig { min_width: 12, alignment: Alignment::Left, transform: Transform::Unchanged },
    };
    FormatValuesView {
        tag,
        icon: terminal_icon(t, rec.level),
        scope: spec_format_scope(scope_style, rec.scope),
        msg: terminal_message(t, rec.message),
        level: rec.level.name(),
        app: match rec.app_name {
            Some(a) => a,
            None => Seq::empty(),
        },
        ..rec.values
    }
}

/// The line a terminal prints for a record, and whether it goes to standard
/// error (warnings and errors that are not raw) rather than standard output.
/// A raw record prints its message alone; others fill the output's template
/// (`{tag} {scope}  {msg}` when none is set). Style tags are then rendered,
/// as colors unless colors are off.
pub open spec fn spec_terminal_line(t: TerminalSettings, rec: LogRecordView) -> (Seq<char>, bool) {
    let colors = match t.colors {
        Some(c) => c,
        None => true,
    };
    let text = if rec.raw {
        rec.message
    } else {
        let template = match t@.structure {
            Some(s) => spec_parse_template(s),
            None => spec_parse_template("{tag} {scope}  {msg}"@),
        };
        spec_render_template(template, terminal_values(t, rec))
    };
    (spec_styled(text, colors, t@.named_colors), !rec.raw && rec.level.rank() >= Level::Warn.rank())
}

/// The line a terminal prints for a record, and whether it goes to standard error.
pub fn terminal_line(t: &TerminalSettings, rec: &LogRecord) -> (r: (String, bool))
    ensures
        r.0@ == spec_terminal_line(*t, rec@).0,
        r.1 == spec_terminal_line(*t, rec@).1,
{
    let colors = match t.colors {
        Some(c) => c,
        None => true,
    };
    let to_stderr = !rec.raw && rec.level.severity() >= Level::Warn.severity();
    if rec.raw {
        return (styled(rec.message.as_str(), colors, &t.named_colors), to_stderr);
    }
    let mut tag = record_tag(&t.tag_config, rec);
    if colors {
        if let Some(c) = find_level_color(&t.level_colors, rec.level) {
            tag = colorize(tag.as_str(), c);
        }
    }
    let icons = match &t.icons {
        Some(i) => i.deep_copy(),
        None => IconSet::nerdfont(),
    };
    let scope_style = match t.scope_config {
        Some(s) => s,
        None => ScopeConfig::new(),
    };
    let scope = scope_style.format(rec.scope.as_str());
    let mut msg = owned(rec.message.as_str());
    if let Some(h) = &t.highlight {
        msg = inject_tags(msg.as_str(), h);
    }
    if let Some(tr) = t.message_transform {
        msg = tr.apply(msg.as_str());
    }
    let template = match &t.structure {
        Some(s) => FormatTemplate::parse(s.as_str()),
        None => FormatTemplate::default_template(),
    };
    let app: &str = match &rec.app_name {
        Some(a) => a.as_str(),
        None => "",
    };
    let icon = icons.get(rec.level);
    let lv = rec.level.as_str();
    proof {
        reveal_strlit("");
        let want = terminal_values(*t, rec@);
        assert(tag@ == want.tag);
        assert(icon@ == want.icon);
        assert(scope@ == want.scope);
        assert(msg@ == want.msg);
        assert(app@ == want.app);
        assert(lv@ == want.level);
    }
    let values = rec.values.deep_copy().tag(tag.as_str()).icon(icon).scope(scope.as_str()).msg(
        msg.as_str(),
    ).level(lv).app(app);
    proof {
        assert(values@ == terminal_values(*t, rec@));
    }
    let line = template.render(&values);
    (styled(line.as_str(), colors, &t.named_colors), to_stderr)
}

/// The application a file line is for: the record's, else the output's, else `hyprlog`.
pub open spec fn file_app(f: FileSettingsView, rec: LogRecordView) -> Seq<char> {
    match rec.app_name {
        Some(a) => a,
        None => match f.app_name {
            Some(a) => a,
            None => "hyprlog"@,
        },
    }
}

/// The values a log file fills its templates with; the message without style tags.
pub open spec fn file_values(
    f: FileSettingsView,
    rec: LogRecordView,
    stamp: Seq<char>,
    year: Seq<char>,
    month: Seq<char>,
    day: Seq<char>,
) -> FormatValuesView {
    FormatValuesView {
        tag: spec_record_tag(f.tag_config, rec),
        scope: rec.scope,
        msg: spec_styled(rec.message, false, Map::empty()),
        level: rec.level.name(),
        app: file_app(f, rec),
        timestamp: stamp,
        year,
        month,
        day,
        ..rec.values
    }
}

/// A template setting, or its default.
pub open spec fn template_or(t: Option<Seq<char>>, d: Seq<char>) -> Seq<char> {
    match t {
        Some(s) => s,
        None => d,
    }
}

/// Where and what a log file gets for a record: the directory below the base
/// directory (`{year}/{month}/{app}` by default), the file name
/// (`{scope}_{level}_{day}.log`) and the line (`{timestamp} {tag} {scope}  {msg}`,
/// or the message alone for a raw record), all without style tags.
pub open spec fn spec_file_entry(
    f: FileSettingsView,
    rec: LogRecordView,
    stamp: Seq<char>,
    year: Seq<char>,
    month: Seq<char>,
    day: Seq<char>,
) -> (Seq<char>, Seq<char>, Seq<char>) {
    let v = file_values(f, rec, stamp, year, month, day);
    (
        spec_render_template(spec_parse_template(template_or(f.path_structure, "{year}/{month}/{app}"@)), v),
        spec_render_template(spec_parse_template(template_or(f.filename_structure, "{scope}_{level}_{day}.log"@)), v),
        if rec.raw {
            v.msg
        } else {
            spec_render_template(
                spec_parse_template(template_or(f.content_structure, "{timestamp} {tag} {scope}  {msg}"@)),
                v,
            )
        },
    )
}

fn template_of(t: &Option<String>, d: &str) -> (r: FormatTemplate)
    ensures
        r@ == spec_parse_template(template_or(opt_view(*t), d@)),
{
    match t {
        Some(s) => FormatTemplate::parse(s.as_str()),
        None => FormatTemplate::parse(d),
    }
}

/// The directory, file name and line a log file gets for a record written at
/// the timestamp `stamp` on the date `year`-`month`-`day`.
pub fn file_entry(f: &FileSettings, rec: &LogRecord, stamp: &str, year: &str, month: &str, day: &str) -> (r: (
    String,
    String,
    String,
))
    ensures
        (r.0@, r.1@, r.2@) == spec_file_entry(f@, rec@, stamp@, year@, month@, day@),
{
    let app: &str = match &rec.app_name {
        Some(a) => a.as_str(),
        None => match &f.app_name {
            Some(a) => a.as_str(),
            None => "hyprlog",
        },
    };
    let tag = record_tag(&f.tag_config, rec);
    let msg = styled(rec.message.as_str(), false, &StrMap::new());
    let values = rec.values.deep_copy().tag(tag.as_str()).scope(rec.scope.as_str()).msg(
        msg.as_str(),
    ).level(rec.level.as_str()).app(app).timestamp(stamp).date(year, month, day);
    proof {
        assert(values@ == file_values(f@, rec@, stamp@, year@, month@, day@));
    }
    let dir = template_of(&f.path_structure, "{year}/{month}/{app}").render(&values);
    let name = template_of(&f.filename_structure, "{scope}_{level}_{day}.log").render(&values);
    let line = if rec.raw {
        msg
    } else {
        template_of(&f.content_structure, "{timestamp} {tag} {scope}  {msg}").render(&values)
    };
    (dir, name, line)
}

/// What a JSON-lines output records of a record (besides the time it writes it).
pub struct JsonFields {
    /// The level name.
    pub level: String,
    pub scope: String,
    /// The message without style tags.
    pub message: String,
    /// The record's application, else the output's.
    pub app: Option<String>,
}

/// The fields a JSON-lines output records for a record.
pub fn json_fields(j: &JsonSettings, rec: &LogRecord) -> (r: JsonFields)
    ensures
        r.level@ == rec.level.name(),
        r.scope@ == rec@.scope,
        r.message@ == spec_styled(rec@.message, false, Map::empty()),
        opt_view(r.app) == match rec@.app_name {
            Some(a) => Some(a),
            None => j@.app_name,
        },
{
    let app = match &rec.app_name {
        Some(a) => Some(owned(a.as_str())),
        None => copy_opt_string(&j.app_name),
    };
    JsonFields {
        level: owned(rec.level.as_str()),
        scope: owned(rec.scope.as_str()),
        message: styled(rec.message.as_str(), false, &StrMap::new()),
        app,
    }
}

/// The line a JSON-lines output appends: one object with the keys `app`,
/// `level`, `message`, `scope` and `timestamp` in that order, `null` for no
/// application, every value a JSON string literal.
pub open spec fn spec_json_line(
    app: Option<Seq<char>>,
    level: Seq<char>,
    scope: Seq<char>,
    message: Seq<char>,
    timestamp: Seq<char>,
) -> Seq<char> {
    "{\"app\":"@ + match app {
        Some(a) => spec_json_string(a),
        None => "null"@,
    } + ",\"level\":"@ + spec_json_string(level) + ",\"message\":"@ + spec_json_string(message)
        + ",\"scope\":"@ + spec_json_string(scope) + ",\"timestamp\":"@ + spec_json_string(
        timestamp,
    ) + "}"@
}

/// The JSON line for a record's fields, stamped with `timestamp`.
pub fn json_line(f: &JsonFields, timestamp: &str) -> (r: String)
    ensures
        r@ == spec_json_line(opt_view(f.app), f.level@, f.scope@, f.message@, timestamp@),
{
    let mut v: Vec<char> = Vec::new();
    push_str(&mut v, "{\"app\":");
    match &f.app {
        Some(a) => {
            let j = json_string(a.as_str());
            push_str(&mut v, j.as_str());
        },
        None => push_str(&mut v, "null"),
    }
    push_str(&mut v, ",\"level\":");
    let l = json_string(f.level.as_str());
    push_str(&mut v, l.as_str());
    push_str(&mut v, ",\"message\":");
    let m = json_string(f.message.as_str());
    push_str(&mut v, m.as_str());
    push_str(&mut v, ",\"scope\":");
    let s = json_string(f.scope.as_str());
    push_str(&mut v, s.as_str());
    push_str(&mut v, ",\"timestamp\":");
    let t = json_string(timestamp);
    push_str(&mut v, t.as_str());
    push_str(&mut v, "}");
    assert(v@ =~= spec_json_line(opt_view(f.app), f.level@, f.scope@, f.message@, timestamp@));
    string_of(&v)
}

} // verus!
