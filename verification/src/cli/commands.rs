//! What each command decides from its arguments: the records it logs, the
//! options it runs with, or the diagnostic it fails with.
use crate::cli::preset::{PresetRunner, spec_preset_entry};
use crate::cleanup::date::{Date, parse_ymd, spec_parse_date};
use crate::cleanup::options::{CleanupOptions, CleanupOptionsView, no_filters};
use crate::cli::util::{parse_level, spec_cli_level};
use crate::config::structs::{CleanupConfig, CleanupConfigView, HyprlandConfig, HyprlandConfigView};
use crate::hyprland::level_map::{default_level_map, default_levels};
use crate::strmap::DeepCopy;
use crate::config::Config;
use crate::error::{Error, spec_error_text};
use crate::level::Level;
use crate::logger::{LogRecord, LogRecordView, Logger, passes, spec_record};
use crate::text::{
    chars_of, joined, opt_view, owned, parse_unsigned, parse_unsigned_chars, push_str, str_eq, string_of,
    strip_end, svec_view, trim_end_matches,
};
use vstd::prelude::*;

verus! {

/// A message for the library's own diagnostic logger.
#[derive(Debug)]
pub struct Diagnostic {
    pub level: Level,
    pub scope: String,
    pub message: String,
}

/// The value of a [`Diagnostic`].
pub struct DiagnosticView {
    pub level: Level,
    pub scope: Seq<char>,
    pub message: Seq<char>,
}

impl View for Diagnostic {
    type V = DiagnosticView;

    open spec fn view(&self) -> DiagnosticView {
        DiagnosticView { level: self.level, scope: self.scope@, message: self.message@ }
    }
}

/// A diagnostic's value.
pub open spec fn diag(level: Level, scope: Seq<char>, message: Seq<char>) -> DiagnosticView {
    DiagnosticView { level, scope, message }
}

fn diagnostic(level: Level, scope: &str, message: String) -> (r: Diagnostic)
    ensures
        r@ == diag(level, scope@, message@),
{
    Diagnostic { level, scope: owned(scope), message }
}


/// Words joined with single spaces (`[&str]::join(" ")`).
pub open spec fn join_words(ws: Seq<Seq<char>>) -> Seq<char>
    decreases ws.len(),
{
    if ws.len() == 0 {
        Seq::empty()
    } else if ws.len() == 1 {
        ws[0]
    } else {
        join_words(ws.drop_last()) + " "@ + ws.last()
    }
}

/// The arguments from index `from` on, joined with single spaces.
pub fn join_args(args: &Vec<String>, from: usize) -> (r: String)
    requires
        from <= args@.len(),
    ensures
        r@ == join_words(svec_view(args@).skip(from as int)),
{
    let ghost ws = svec_view(args@);
    let mut v: Vec<char> = Vec::new();
    let mut i: usize = from;
    assert(ws.skip(from as int).take(0) =~= Seq::<Seq<char>>::empty());
    while i < args.len()
        invariant
            from <= i <= args@.len(),
            ws == svec_view(args@),
            v@ == join_words(ws.skip(from as int).take(i - from)),
        decreases args@.len() - i,
    {
        let ghost t = ws.skip(from as int).take(i - from + 1);
        assert(t.drop_last() =~= ws.skip(from as int).take(i - from));
        assert(t.last() == args@[i as int]@);
        if i > from {
            push_str(&mut v, " ");
        }
        push_str(&mut v, args[i].as_str());
        i = i + 1;
    }
    assert(ws.skip(from as int).take(args@.len() - from) =~= ws.skip(from as int));
    string_of(&v)
}

/// Index of the first argument equal to `flag`.
pub open spec fn first_index(ws: Seq<Seq<char>>, flag: Seq<char>) -> Option<int> {
    if exists|i: int| 0 <= i < ws.len() && ws[i] == flag {
        Some(choose|i: int| 0 <= i < ws.len() && ws[i] == flag && forall|j: int| 0 <= j < i ==> ws[j] != flag)
    } else {
        None
    }
}

/// The argument after the first `flag`, when there is one.
pub open spec fn flag_value(ws: Seq<Seq<char>>, flag: Seq<char>) -> Option<Seq<char>> {
    match first_index(ws, flag) {
        Some(i) => if i + 1 < ws.len() {
            Some(ws[i + 1])
        } else {
            None
        },
        None => None,
    }
}

/// Finds the first argument equal to `flag`.
pub fn find_flag(args: &Vec<String>, flag: &str) -> (r: Option<usize>)
    ensures
        r matches Some(i) ==> i < args@.len(),
        match (r, first_index(svec_view(args@), flag@)) {
            (Some(i), Some(j)) => i as int == j,
            (None, None) => true,
            _ => false,
        },
{
    let ghost ws = svec_view(args@);
    let mut i: usize = 0;
    while i < args.len()
        invariant
            i <= args@.len(),
            ws == svec_view(args@),
            forall|j: int| 0 <= j < i ==> ws[j] != flag@,
        decreases args@.len() - i,
    {
        if str_eq(args[i].as_str(), flag) {
            proof {
                assert(ws[i as int] == flag@);
                let k = choose|k: int| 0 <= k < ws.len() && ws[k] == flag@ && forall|j: int| 0 <= j < k ==> ws[j] != flag@;
                if k < i {
                } else if k > i {
                    assert(ws[i as int] != flag@);
                }
            }
            return Some(i);
        }
        i = i + 1;
    }
    None
}

/// The argument after the first `flag`.
pub fn flag_arg(args: &Vec<String>, flag: &str) -> (r: Option<String>)
    ensures
        match (r, flag_value(svec_view(args@), flag@)) {
            (Some(a), Some(b)) => a@ == b,
            (None, None) => true,
            _ => false,
        },
{
    let n = args.len();
    match find_flag(args, flag) {
        Some(i) => if i + 1 < n {
            Some(args[i + 1].clone())
        } else {
            None
        },
        None => None,
    }
}

/// Whether some argument equals `flag`.
pub fn has_flag(args: &Vec<String>, flag: &str) -> (r: bool)
    ensures
        r == svec_view(args@).contains(flag@),
{
    crate::text::strings_contain(args, flag)
}

/// What a logging command yields: a diagnostic, or the record it logs
/// (`None` when below the minimum level).
pub open spec fn logged(r: Result<Option<LogRecord>, Diagnostic>, min: Level, rec: LogRecordView) -> bool {
    match r {
        Ok(out) => (out is Some <==> passes(min, rec.level)) && (out matches Some(x) ==> x@ == rec),
        Err(_) => false,
    }
}

/// `log <app> <level> <scope> <message…>`: the entry for `app`.
pub fn cmd_log(args: &Vec<String>, logger: &Logger) -> (r: Result<Option<LogRecord>, Diagnostic>)
    ensures
        ({
            let ws = svec_view(args@);
            if ws.len() < 4 {
                r matches Err(d) && d@ == diag(Level::Warn, "CLI"@, "Usage: hyprlog log <app> <level> <scope> <message>"@)
            } else {
                match spec_cli_level(ws[1]) {
                    None => r matches Err(d) && d@ == diag(Level::Error, "CLI"@, "Invalid level: "@ + ws[1]),
                    Some(l) => logged(r, logger@.min_level, spec_record(l, ws[2], join_words(ws.skip(3)), None, Some(ws[0]))),
                }
            }
        }),
{
    if args.len() < 4 {
        return Err(diagnostic(Level::Warn, "CLI", owned("Usage: hyprlog log <app> <level> <scope> <message>")));
    }
    let level = match parse_level(args[1].as_str()) {
        Some(l) => l,
        None => return Err(diagnostic(Level::Error, "CLI", joined("Invalid level: ", args[1].as_str()))),
    };
    let msg = join_args(args, 3);
    Ok(logger.log_full(level, args[2].as_str(), msg.as_str(), Some(args[0].as_str())))
}

/// `[<app>] <level> <scope> <message…>`: without an application when the
/// first word is a level, else for the application it names.
pub fn cmd_log_shorthand(args: &Vec<String>, logger: &Logger) -> (r: Result<Option<LogRecord>, Diagnostic>)
    ensures
        ({
            let ws = svec_view(args@);
            if ws.len() < 3 {
                r matches Err(d) && d@ == diag(Level::Warn, "CLI"@, "Usage: hyprlog [<app>] <level> <scope> <message>"@)
            } else if spec_cli_level(ws[0]) is Some {
                logged(r, logger@.min_level, spec_record(spec_cli_level(ws[0]).unwrap(), ws[1], join_words(ws.skip(2)), None, logger@.app_name))
            } else if ws.len() < 4 {
                r matches Err(d) && d@ == diag(Level::Warn, "CLI"@, "Usage: hyprlog <app> <level> <scope> <message>"@)
            } else {
                match spec_cli_level(ws[1]) {
                    None => r matches Err(d) && d@ == diag(Level::Error, "CLI"@, "Invalid level: "@ + ws[1]),
                    Some(l) => logged(r, logger@.min_level, spec_record(l, ws[2], join_words(ws.skip(3)), None, Some(ws[0]))),
                }
            }
        }),
{
    if args.len() < 3 {
        return Err(diagnostic(Level::Warn, "CLI", owned("Usage: hyprlog [<app>] <level> <scope> <message>")));
    }
    if let Some(level) = parse_level(args[0].as_str()) {
        let msg = join_args(args, 2);
        return Ok(logger.log(level, args[1].as_str(), msg.as_str()));
    }
    if args.len() < 4 {
        return Err(diagnostic(Level::Warn, "CLI", owned("Usage: hyprlog <app> <level> <scope> <message>")));
    }
    let level = match parse_level(args[1].as_str()) {
        Some(l) => l,
        None => return Err(diagnostic(Level::Error, "CLI", joined("Invalid level: ", args[1].as_str()))),
    };
    let msg = join_args(args, 3);
    Ok(logger.log_full(level, args[2].as_str(), msg.as_str(), Some(args[0].as_str())))
}

/// `preset <name>`: runs the preset, or fails with the preset error.
pub fn cmd_preset(args: &Vec<String>, config: &Config, logger: &Logger) -> (r: Result<Option<LogRecord>, Diagnostic>)
    ensures
        ({
            let ws = svec_view(args@);
            let presets = config@.presets;
            if ws.len() == 0 {
                r matches Err(d) && d@ == diag(Level::Warn, "CLI"@, "Usage: hyprlog preset <name>"@)
            } else if !presets.contains_key(ws[0]) {
                r matches Err(d) && d@ == diag(Level::Error, "PRESET"@, "preset not found: "@ + ws[0])
            } else if Level::spec_parse(presets[ws[0]].level) is None {
                r matches Err(d) && d@ == diag(Level::Error, "PRESET"@, "invalid level in preset: "@ + presets[ws[0]].level)
            } else {
                logged(r, logger@.min_level, spec_preset_entry(presets[ws[0]], Level::spec_parse(presets[ws[0]].level).unwrap(), logger@.app_name))
            }
        }),
{
    if args.len() == 0 {
        return Err(diagnostic(Level::Warn, "CLI", owned("Usage: hyprlog preset <name>")));
    }
    let runner = PresetRunner::new(config, logger);
    match runner.run(args[0].as_str()) {
        Ok(out) => Ok(out),
        Err(e) => {
            let m = e.message();
            Err(diagnostic(Level::Error, "PRESET", m))
        },
    }
}

/// `stats [--app <name>]`: the application the statistics are narrowed to.
pub fn stats_app_filter(args: &Vec<String>) -> (r: Option<String>)
    ensures
        match (r, flag_value(svec_view(args@), "--app"@)) {
            (Some(a), Some(b)) => a@ == b,
            (None, None) => true,
            _ => false,
        },
{
    flag_arg(args, "--app")
}

/// One JSON entry with its fields read: the record it logs, or the reason it is refused.
pub fn json_entry_record(level: &str, scope: &str, msg: &str, logger: &Logger) -> (r: Result<Option<LogRecord>, String>)
    ensures
        match spec_cli_level(level@) {
            None => r matches Err(e) && e@ == "invalid level: "@ + level@,
            Some(l) => match r {
                Ok(out) => (out is Some <==> passes(logger@.min_level, l)) && (out matches Some(x) ==> x@ == spec_record(l, scope@, msg@, None, logger@.app_name)),
                Err(_) => false,
            },
        },
{
    match parse_level(level) {
        Some(l) => Ok(logger.log(l, scope, msg)),
        None => Err(joined("invalid level: ", level)),
    }
}

/// The retention a `cleanup` run uses, and the size text its limit comes from
/// (read by the caller, since sizes may be fractional).
pub struct CleanupRequest {
    pub options: CleanupOptions,
    pub max_size: Option<String>,
}

/// An unsigned value given after a flag, parsed as `str::parse` does.
pub open spec fn flag_number(ws: Seq<Seq<char>>, flag: Seq<char>, max: nat, strip_d: bool) -> Option<nat> {
    match flag_value(ws, flag) {
        Some(v) => parse_unsigned(if strip_d { trim_end_matches(v, 'd') } else { v }, max),
        None => None,
    }
}

/// What a date flag does: nothing when absent, the date when it parses, else
/// the error message.
pub open spec fn date_flag(ws: Seq<Seq<char>>, flag: Seq<char>) -> Option<Result<Date, Seq<char>>> {
    match flag_value(ws, flag) {
        Some(v) => match spec_parse_date(v, "%Y-%m-%d"@) {
            Some((y, m, d)) => Some(Ok(Date { year: y, month: m, day: d })),
            None => Some(Err("Invalid date format for "@ + flag + ": "@ + v + " (use YYYY-MM-DD)"@)),
        },
        None => None,
    }
}

/// The options of `cleanup`: switches from the arguments, the configured
/// retention, then each command-line value overriding it.
pub open spec fn spec_cleanup_options(ws: Seq<Seq<char>>, cfg: CleanupConfigView) -> CleanupOptionsView {
    let o0 = CleanupOptionsView {
        dry_run: ws.contains("--dry-run"@),
        delete_all: ws.contains("--all"@),
        compress: ws.contains("--compress"@),
        ..no_filters()
    };
    let o1 = CleanupOptionsView {
        max_age_days: match flag_number(ws, "--older-than"@, u32::MAX as nat, true) {
            Some(d) => Some(d as u32),
            None => cfg.max_age_days,
        },
        keep_last: match flag_number(ws, "--keep-last"@, usize::MAX as nat, false) {
            Some(n) => Some(n as usize),
            None => cfg.keep_last,
        },
        app_filter: flag_value(ws, "--app"@),
        ..o0
    };
    let o2 = match date_flag(ws, "--before"@) {
        Some(Ok(d)) => CleanupOptionsView { before_date: Some(d), ..o1 },
        _ => o1,
    };
    match date_flag(ws, "--after"@) {
        Some(Ok(d)) => CleanupOptionsView { after_date: Some(d), ..o2 },
        _ => o2,
    }
}

fn number_flag(args: &Vec<String>, flag: &str, max: u64, strip_d: bool) -> (r: Option<u64>)
    requires
        max >= 9,
    ensures
        match r {
            Some(x) => flag_number(svec_view(args@), flag@, max as nat, strip_d) == Some(x as nat),
            None => flag_number(svec_view(args@), flag@, max as nat, strip_d) is None,
        },
{
    match flag_arg(args, flag) {
        Some(v) => {
            let cs = chars_of(v.as_str());
            let t = if strip_d {
                strip_end(&cs, 'd')
            } else {
                cs
            };
            parse_unsigned_chars(&t, max)
        },
        None => None,
    }
}

fn date_arg(args: &Vec<String>, flag: &str) -> (r: Option<Result<Date, String>>)
    ensures
        match (r, date_flag(svec_view(args@), flag@)) {
            (None, None) => true,
            (Some(Ok(a)), Some(Ok(b))) => a == b,
            (Some(Err(a)), Some(Err(b))) => a@ == b,
            _ => false,
        },
{
    match flag_arg(args, flag) {
        Some(v) => match parse_ymd(v.as_str()) {
            Some(d) => Some(Ok(d)),
            None => {
                let mut m: Vec<char> = Vec::new();
                push_str(&mut m, "Invalid date format for ");
                push_str(&mut m, flag);
                push_str(&mut m, ": ");
                push_str(&mut m, v.as_str());
                push_str(&mut m, " (use YYYY-MM-DD)");
                Some(Err(string_of(&m)))
            },
        },
        None => None,
    }
}

/// `cleanup [options]`: the retention to apply, or the date error it fails with.
pub fn cleanup_request(args: &Vec<String>, cfg: &CleanupConfig) -> (r: Result<CleanupRequest, Diagnostic>)
    ensures
        ({
            let ws = svec_view(args@);
            match (date_flag(ws, "--before"@), date_flag(ws, "--after"@)) {
                (Some(Err(m)), _) => r matches Err(d) && d@ == diag(Level::Error, "CLEANUP"@, m),
                (_, Some(Err(m))) => r matches Err(d) && d@ == diag(Level::Error, "CLEANUP"@, m),
                _ => r matches Ok(req) && req.options@ == spec_cleanup_options(ws, cfg@) && opt_view(req.max_size) == match flag_value(ws, "--max-size"@) {
                    Some(v) => Some(v),
                    None => cfg@.max_total_size,
                },
            }
        }),
{
    let mut options = CleanupOptions::new().dry_run(has_flag(args, "--dry-run")).delete_all(
        has_flag(args, "--all"),
    ).compress(has_flag(args, "--compress"));
    if let Some(days) = cfg.max_age_days {
        options = options.max_age_days(days);
    }
    let mut max_size: Option<String> = crate::text::copy_opt_string(&cfg.max_total_size);
    if let Some(keep) = cfg.keep_last {
        options = options.keep_last(keep);
    }
    if let Some(days) = number_flag(args, "--older-than", 0xffff_ffff, true) {
        options = options.max_age_days(days as u32);
    }
    if let Some(size) = flag_arg(args, "--max-size") {
        max_size = Some(size);
    }
    if let Some(app) = flag_arg(args, "--app") {
        options = options.app_filter(app);
    }
    if let Some(n) = number_flag(args, "--keep-last", usize::MAX as u64, false) {
        options = options.keep_last(n as usize);
    }
    match date_arg(args, "--before") {
        Some(Ok(d)) => {
            options = options.before_date(d);
        },
        Some(Err(m)) => {
            return Err(diagnostic(Level::Error, "CLEANUP", m));
        },
        None => {},
    }
    match date_arg(args, "--after") {
        Some(Ok(d)) => {
            options = options.after_date(d);
        },
        Some(Err(m)) => {
            return Err(diagnostic(Level::Error, "CLEANUP", m));
        },
        None => {},
    }
    Ok(CleanupRequest { options, max_size })
}

/// The allow list `--events a,b` gives: its comma-separated names, trimmed.
pub open spec fn event_list(v: Seq<char>) -> Seq<Seq<char>> {
    crate::text::split_char(v, ',').map_values(|x: Seq<char>| crate::text::trim(x))
}

/// The events `--min-level` silences: built-in events whose default level is
/// below `min` and whose level the user did not set.
pub open spec fn silenced(cfg: HyprlandConfigView, min: Level, name: Seq<char>) -> bool {
    default_levels().contains_key(name) && default_levels()[name].rank() < min.rank()
        && !cfg.event_levels.contains_key(name)
}

/// The names of an `--events` list: split at commas and trimmed.
pub fn parse_event_list(v: &str) -> (r: Vec<String>)
    ensures
        svec_view(r@) == event_list(v@),
{
    let cs = chars_of(v);
    let pieces = crate::text::split_all(&cs, ',');
    let mut names: Vec<String> = Vec::new();
    let mut i: usize = 0;
    let ghost f = |x: Seq<char>| crate::text::trim(x);
    assert(crate::text::vviews(pieces@).take(0).map_values(f) =~= Seq::<Seq<char>>::empty());
    while i < pieces.len()
        invariant
            i <= pieces@.len(),
            f == (|x: Seq<char>| crate::text::trim(x)),
            svec_view(names@) == crate::text::vviews(pieces@).take(i as int).map_values(f),
        decreases pieces@.len() - i,
    {
        let t = crate::text::trim_chars(&pieces[i]);
        let ghost before = svec_view(names@);
        names.push(string_of(&t));
        proof {
            let pv = crate::text::vviews(pieces@);
            assert(pv[i as int] == pieces@[i as int]@);
            assert(pv.take(i + 1).map_values(f) =~= pv.take(i as int).map_values(f).push(f(pv[i as int])));
            assert(svec_view(names@) =~= before.push(t@));
        }
        i = i + 1;
    }
    assert(crate::text::vviews(pieces@).take(pieces@.len() as int) =~= crate::text::vviews(pieces@));
    names
}

/// The built-in events that a minimum level silences for this configuration, each once.
pub fn silenced_events(cfg: &HyprlandConfig, min: Level) -> (r: Vec<String>)
    ensures
        svec_view(r@).no_duplicates(),
        forall|n: Seq<char>| #[trigger] svec_view(r@).contains(n) <==> silenced(cfg@, min, n),
{
    let defaults = default_level_map();
    proof {
        use_type_invariant(&defaults);
        defaults.lemma_view();
    }
    let ghost ps = defaults.pairs();
    let mut out: Vec<String> = Vec::new();
    let mut i: usize = 0;
    while i < defaults.len()
        invariant
            ps == defaults.pairs(),
            defaults@ == default_levels(),
            crate::strmap::unique_keys(ps),
            forall|k: Seq<char>| #[trigger] defaults@.contains_key(k) <==> exists|j: int| 0 <= j < ps.len() && ps[j].0 == k,
            forall|j: int| 0 <= j < ps.len() ==> #[trigger] defaults@[ps[j].0] == ps[j].1,
            i <= ps.len(),
            svec_view(out@).no_duplicates(),
            forall|n: Seq<char>| #[trigger] svec_view(out@).contains(n) <==> exists|j: int| 0 <= j < i && ps[j].0 == n && ps[j].1.rank() < min.rank() && !cfg@.event_levels.contains_key(n),
        decreases ps.len() - i,
    {
        let name = defaults.key_at(i);
        let lvl = *defaults.value_at(i);
        let ghost before = svec_view(out@);
        if !lvl.at_least(min) && !cfg.event_levels.contains_key(name.as_str()) {
            out.push(name.clone());
            proof {
                let now = svec_view(out@);
                assert(now =~= before.push(ps[i as int].0));
                assert(!before.contains(ps[i as int].0)) by {
                    if before.contains(ps[i as int].0) {
                        let j = choose|j: int| 0 <= j < i && ps[j].0 == ps[i as int].0 && ps[j].1.rank() < min.rank() && !cfg@.event_levels.contains_key(ps[i as int].0);
                    }
                }
                assert forall|a: int, b: int| 0 <= a < now.len() && 0 <= b < now.len() && a != b implies now[a] != now[b] by {
                    if a < before.len() && b < before.len() {
                    } else if a == before.len() {
                        assert(before.contains(now[b]));
                    } else {
                        assert(before.contains(now[a]));
                    }
                }
                assert forall|n: Seq<char>| #[trigger] now.contains(n) <==> exists|j: int| 0 <= j < i + 1 && ps[j].0 == n && ps[j].1.rank() < min.rank() && !cfg@.event_levels.contains_key(n) by {
                    if now.contains(n) && n != ps[i as int].0 {
                        let t = choose|t: int| 0 <= t < now.len() && now[t] == n;
                        assert(before[t] == n);
                        assert(before.contains(n));
                    }
                    if n == ps[i as int].0 {
                        assert(now[before.len() as int] == n);
                    }
                    if exists|j: int| 0 <= j < i + 1 && ps[j].0 == n && ps[j].1.rank() < min.rank() && !cfg@.event_levels.contains_key(n) {
                        if n != ps[i as int].0 {
                            assert(before.contains(n));
                            let t = choose|t: int| 0 <= t < before.len() && before[t] == n;
                            assert(now[t] == n);
                        }
                    }
                }
            }
        } else {
            proof {
                assert forall|n: Seq<char>| #[trigger] svec_view(out@).contains(n) <==> exists|j: int| 0 <= j < i + 1 && ps[j].0 == n && ps[j].1.rank() < min.rank() && !cfg@.event_levels.contains_key(n) by {
                    if exists|j: int| 0 <= j < i + 1 && ps[j].0 == n && ps[j].1.rank() < min.rank() && !cfg@.event_levels.contains_key(n) {
                        let j = choose|j: int| 0 <= j < i + 1 && ps[j].0 == n && ps[j].1.rank() < min.rank() && !cfg@.event_levels.contains_key(n);
                        if j == i {
                            assert(ps[j].1 == lvl);
                        }
                    }
                }
            }
        }
        i = i + 1;
    }
    proof {
        assert forall|n: Seq<char>| #[trigger] svec_view(out@).contains(n) <==> silenced(cfg@, min, n) by {
            if silenced(cfg@, min, n) {
                let j = choose|j: int| 0 <= j < ps.len() && ps[j].0 == n;
                assert(defaults@[ps[j].0] == ps[j].1);
            }
            if svec_view(out@).contains(n) {
                let j = choose|j: int| 0 <= j < ps.len() && ps[j].0 == n && ps[j].1.rank() < min.rank() && !cfg@.event_levels.contains_key(n);
                assert(defaults@[ps[j].0] == ps[j].1);
                assert(defaults@.contains_key(n));
            }
        }
    }
    out
}

fn append_strings(v: &mut Vec<String>, extra: &Vec<String>)
    ensures
        svec_view(final(v)@) == svec_view(old(v)@) + svec_view(extra@),
{
    let ghost start = svec_view(v@);
    let mut k: usize = 0;
    while k < extra.len()
        invariant
            k <= extra@.len(),
            svec_view(v@) == start + svec_view(extra@).take(k as int),
        decreases extra@.len() - k,
    {
        let ghost before = svec_view(v@);
        v.push(extra[k].clone());
        assert(svec_view(extra@).take(k + 1) =~= svec_view(extra@).take(k as int).push(extra@[k as int]@));
        assert(svec_view(v@) =~= before.push(extra@[k as int]@));
        k = k + 1;
    }
    assert(svec_view(extra@).take(extra@.len() as int) =~= svec_view(extra@));
}

/// `watch [--events a,b] [--min-level L]`: the event settings to watch with.
/// `--events` sets the allow list; `--min-level` appends the events it
/// silences to the block list, or fails when it names no level.
#[verifier::spinoff_prover]
#[verifier::rlimit(40)]
pub fn watch_config(args: &Vec<String>, cfg: &HyprlandConfig) -> (r: Result<HyprlandConfig, Diagnostic>)
    ensures
        ({
            let ws = svec_view(args@);
            let filter = match flag_value(ws, "--events"@) {
                Some(v) => Some(event_list(v)),
                None => cfg@.event_filter,
            };
            match flag_value(ws, "--min-level"@) {
                Some(v) => match Level::spec_parse(v) {
                    None => r matches Err(d) && d@ == diag(Level::Error, cfg@.scope, "Invalid level: "@ + v),
                    Some(min) => r matches Ok(c) && c@ == (HyprlandConfigView {
                        event_filter: filter,
                        ignore_events: c@.ignore_events,
                        ..cfg@
                    }) && c@.ignore_events.len() >= cfg@.ignore_events.len()
                        && c@.ignore_events.take(cfg@.ignore_events.len() as int) == cfg@.ignore_events
                        && c@.ignore_events.skip(cfg@.ignore_events.len() as int).no_duplicates()
                        && forall|n: Seq<char>| #[trigger] c@.ignore_events.skip(cfg@.ignore_events.len() as int).contains(n) <==> silenced(cfg@, min, n),
                },
                None => r matches Ok(c) && c@ == (HyprlandConfigView { event_filter: filter, ..cfg@ }),
            }
        }),
{
    let mut c = cfg.deep_copy();
    if let Some(v) = flag_arg(args, "--events") {
        c.event_filter = Some(parse_event_list(v.as_str()));
    }
    if let Some(v) = flag_arg(args, "--min-level") {
        let min = match Level::parse(v.as_str()) {
            Ok(l) => l,
            Err(_) => {
                let mut m: Vec<char> = Vec::new();
                push_str(&mut m, "Invalid level: ");
                push_str(&mut m, v.as_str());
                return Err(diagnostic_owned(Level::Error, cfg.scope.clone(), string_of(&m)));
            },
        };
        let extra = silenced_events(cfg, min);
        let ghost start = svec_view(c.ignore_events@);
        append_strings(&mut c.ignore_events, &extra);
        assert((start + svec_view(extra@)).take(start.len() as int) =~= start);
        assert((start + svec_view(extra@)).skip(start.len() as int) =~= svec_view(extra@));
    }
    Ok(c)
}

fn diagnostic_owned(level: Level, scope: String, message: String) -> (r: Diagnostic)
    ensures
        r@ == diag(level, scope@, message@),
{
    Diagnostic { level, scope, message }
}

/// A lowercase hexadecimal digit.
pub open spec fn json_hex_digit(d: nat) -> char {
    if d < 10 {
        ((d + 48) as u8) as char
    } else {
        ((d + 87) as u8) as char
    }
}

/// How `serde_json` writes one character inside a string: `"` and `\` and the
/// control characters below U+0020 escaped (`\b \t \n \f \r` by name,
/// the others as `\u00xx`), every other character as it is.
pub open spec fn json_escape_char(c: char) -> Seq<char> {
    if c == '"' {
        seq!['\\', '"']
    } else if c == '\\' {
        seq!['\\', '\\']
    } else if c == '\x08' {
        seq!['\\', 'b']
    } else if c == '\t' {
        seq!['\\', 't']
    } else if c == '\n' {
        seq!['\\', 'n']
    } else if c == '\x0c' {
        seq!['\\', 'f']
    } else if c == '\r' {
        seq!['\\', 'r']
    } else if (c as u32) < 0x20 {
        seq!['\\', 'u', '0', '0', json_hex_digit((c as u32 / 16) as nat), json_hex_digit((c as u32 % 16) as nat)]
    } else {
        seq![c]
    }
}

/// The escaped characters of a JSON string.
pub open spec fn json_escaped(s: Seq<char>) -> Seq<char>
    decreases s.len(),
{
    if s.len() == 0 {
        Seq::empty()
    } else {
        json_escaped(s.drop_last()) + json_escape_char(s.last())
    }
}

/// A JSON string literal for `s` as `serde_json` writes it: quoted and escaped.
pub open spec fn spec_json_string(s: Seq<char>) -> Seq<char> {
    seq!['"'] + json_escaped(s) + seq!['"']
}

/// `serde_json::to_string` of a string: its JSON literal, `spec_json_string`
/// (the source's `format_escaped_str` with its escape table).
#[verifier::external_body]
pub(crate) fn json_string(s: &str) -> (r: String)
    ensures
        r@ == spec_json_string(s@),
{
    serde_json::to_string(s).unwrap_or_default()
}

/// A record to send to a log server.
pub struct SendRequest {
    pub app: Option<String>,
    pub tcp_addr: Option<String>,
    pub level: Level,
    pub scope: String,
    pub message: String,
}

/// The leading `--app <a>` and `--tcp <addr>` options (later ones win) and the
/// arguments after them.
pub open spec fn send_options(ws: Seq<Seq<char>>, app: Option<Seq<char>>, tcp: Option<Seq<char>>) -> (
    Option<Seq<char>>,
    Option<Seq<char>>,
    Seq<Seq<char>>,
)
    decreases ws.len(),
{
    if ws.len() >= 2 && ws[0] == "--app"@ {
        send_options(ws.skip(2), Some(ws[1]), tcp)
    } else if ws.len() >= 2 && ws[0] == "--tcp"@ {
        send_options(ws.skip(2), app, Some(ws[1]))
    } else {
        (app, tcp, ws)
    }
}

/// `send [--app <app>] [--tcp <addr>] <level> <scope> <message…>`: what to send, or the diagnostic.
pub fn parse_send_args(args: &Vec<String>) -> (r: Result<SendRequest, Diagnostic>)
    ensures
        ({
            let (app, tcp, rest) = send_options(svec_view(args@), None, None);
            if rest.len() < 3 {
                r matches Err(d) && d@ == diag(Level::Warn, "CLI"@, "usage: hyprslog send [--app <app>] [--tcp <addr>] <level> <scope> <message>"@)
            } else {
                match spec_cli_level(rest[0]) {
                    None => r matches Err(d) && d@ == diag(Level::Error, "CLI"@, "invalid level: "@ + rest[0]),
                    Some(l) => r matches Ok(req) && opt_view(req.app) == app && opt_view(req.tcp_addr) == tcp
                        && req.level == l && req.scope@ == rest[1] && req.message@ == join_words(rest.skip(2)),
                }
            }
        }),
{
    let ghost ws = svec_view(args@);
    let n = args.len();
    let mut app: Option<String> = None;
    let mut tcp: Option<String> = None;
    let mut i: usize = 0;
    assert(ws.skip(0) =~= ws);
    while n - i > 1 && (str_eq(args[i].as_str(), "--app") || str_eq(args[i].as_str(), "--tcp"))
        invariant
            n == args@.len(),
            ws == svec_view(args@),
            i <= n,
            send_options(ws, None, None) == send_options(ws.skip(i as int), opt_view(app), opt_view(tcp)),
        decreases n - i,
    {
        let ghost rest = ws.skip(i as int);
        assert(rest[0] == ws[i as int]);
        assert(rest[1] == ws[i + 1]);
        assert(rest.skip(2) =~= ws.skip(i + 2));
        if str_eq(args[i].as_str(), "--app") {
            app = Some(args[i + 1].clone());
        } else {
            tcp = Some(args[i + 1].clone());
        }
        i = i + 2;
    }
    let ghost rest = ws.skip(i as int);
    proof {
        if rest.len() >= 2 {
            assert(rest[0] == ws[i as int]);
        }
    }
    if n - i < 3 {
        return Err(diagnostic(Level::Warn, "CLI", owned("usage: hyprslog send [--app <app>] [--tcp <addr>] <level> <scope> <message>")));
    }
    assert(rest[0] == ws[i as int] && rest[1] == ws[i + 1]);
    let level = match parse_level(args[i].as_str()) {
        Some(l) => l,
        None => return Err(diagnostic(Level::Error, "CLI", joined("invalid level: ", args[i].as_str()))),
    };
    let message = join_args(args, i + 2);
    assert(ws.skip(i + 2) =~= rest.skip(2));
    Ok(SendRequest { app, tcp_addr: tcp, level, scope: args[i + 1].clone(), message })
}

/// The JSON line a send request becomes: `{"app":…,"level":…,"message":…,"scope":…}`
/// with keys in that order, `null` for no application, and a newline.
pub open spec fn spec_send_line(app: Option<Seq<char>>, level: Level, scope: Seq<char>, message: Seq<char>) -> Seq<char> {
    "{\"app\":"@ + match app {
        Some(a) => spec_json_string(a),
        None => "null"@,
    } + ",\"level\":"@ + spec_json_string(level.name()) + ",\"message\":"@ + spec_json_string(message)
        + ",\"scope\":"@ + spec_json_string(scope) + "}\n"@
}

/// The JSON line to send for a request.
pub fn send_line(req: &SendRequest) -> (r: String)
    ensures
        r@ == spec_send_line(opt_view(req.app), req.level, req.scope@, req.message@),
{
    let mut v: Vec<char> = Vec::new();
    push_str(&mut v, "{\"app\":");
    match &req.app {
        Some(a) => {
            let j = json_string(a.as_str());
            push_str(&mut v, j.as_str());
        },
        None => push_str(&mut v, "null"),
    }
    push_str(&mut v, ",\"level\":");
    let l = json_string(req.level.as_str());
    push_str(&mut v, l.as_str());
    push_str(&mut v, ",\"message\":");
    let m = json_string(req.message.as_str());
    push_str(&mut v, m.as_str());
    push_str(&mut v, ",\"scope\":");
    let s = json_string(req.scope.as_str());
    push_str(&mut v, s.as_str());
    push_str(&mut v, "}\n");
    assert(v@ =~= spec_send_line(opt_view(req.app), req.level, req.scope@, req.message@));
    string_of(&v)
}

/// Which command a command line runs.
#[derive(Debug, Clone, Copy, PartialEq, Eq, Structural)]
pub enum Route {
    /// No arguments: the interactive shell.
    Shell,
    Help,
    Version,
    Log,
    Json,
    Preset,
    Presets,
    Stats,
    Cleanup,
    Themes,
    Watch,
    /// `<level> <scope> <message…>` or `<app> <level> <scope> <message…>`.
    Shorthand,
    Unknown,
}

/// The command a command line runs: by its first word, or the shorthand when
/// the first word is a level name or the second word is a level.
pub open spec fn spec_route(ws: Seq<Seq<char>>) -> Route {
    if ws.len() == 0 {
        Route::Shell
    } else {
        let a = ws[0];
        if a == "help"@ || a == "--help"@ || a == "-h"@ {
            Route::Help
        } else if a == "version"@ || a == "--version"@ || a == "-V"@ {
            Route::Version
        } else if a == "log"@ {
            Route::Log
        } else if a == "json"@ {
            Route::Json
        } else if a == "preset"@ {
            Route::Preset
        } else if a == "presets"@ {
            Route::Presets
        } else if a == "stats"@ {
            Route::Stats
        } else if a == "cleanup"@ {
            Route::Cleanup
        } else if a == "themes"@ {
            Route::Themes
        } else if a == "watch"@ {
            Route::Watch
        } else if a == "trace"@ || a == "debug"@ || a == "info"@ || a == "warn"@ || a == "error"@ {
            Route::Shorthand
        } else if ws.len() >= 2 && spec_cli_level(ws[1]) is Some {
            Route::Shorthand
        } else {
            Route::Unknown
        }
    }
}

/// The command a command line runs.
pub fn route(args: &Vec<String>) -> (r: Route)
    ensures
        r == spec_route(svec_view(args@)),
{
    if args.len() == 0 {
        return Route::Shell;
    }
    let a = args[0].as_str();
    if str_eq(a, "help") || str_eq(a, "--help") || str_eq(a, "-h") {
        Route::Help
    } else if str_eq(a, "version") || str_eq(a, "--version") || str_eq(a, "-V") {
        Route::Version
    } else if str_eq(a, "log") {
        Route::Log
    } else if str_eq(a, "json") {
        Route::Json
    } else if str_eq(a, "preset") {
        Route::Preset
    } else if str_eq(a, "presets") {
        Route::Presets
    } else if str_eq(a, "stats") {
        Route::Stats
    } else if str_eq(a, "cleanup") {
        Route::Cleanup
    } else if str_eq(a, "themes") {
        Route::Themes
    } else if str_eq(a, "watch") {
        Route::Watch
    } else if str_eq(a, "trace") || str_eq(a, "debug") || str_eq(a, "info") || str_eq(a, "warn")
        || str_eq(a, "error") {
        Route::Shorthand
    } else if args.len() >= 2 && parse_level(args[1].as_str()).is_some() {
        Route::Shorthand
    } else {
        Route::Unknown
    }
}

} // verus!
