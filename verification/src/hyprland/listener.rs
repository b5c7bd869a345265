//! Routing decisions for the event stream: which events are logged, at what
//! level and under which scope, and how the rolling log is followed.
use crate::config::structs::{HyprlandConfig, HyprlandConfigView};
use crate::hyprland::event::{HyprlandEvent, HyprlandEventView};
use crate::hyprland::formatter::{EventFormatter, EventFormatterView, spec_format_event, spec_observe};
use crate::hyprland::level_map::{resolve_level, spec_resolve_level};
use crate::level::Level;
use crate::text::{
    all_digits, ascii_lower_seq, ascii_lowercase, ascii_upper_seq, ascii_uppercase, chars_of,
    copy_chars, find_char, find_char_from, has_prefix, is_digit, lemma_find_char_from, owned,
    slice_chars, split_char, starts_with, str_eq, string_of, trim, trim_chars,
};
use vstd::prelude::*;

verus! {

/// `str::split(',').nth(n)`: the `n`-th comma-separated field, if there are that many.
pub open spec fn nth_field(s: Seq<char>, n: nat) -> Option<Seq<char>> {
    if n < split_char(s, ',').len() {
        Some(split_char(s, ',')[n as int])
    } else {
        None
    }
}

fn nth_piece(v: &Vec<char>, n: usize) -> (r: Option<Vec<char>>)
    ensures
        match r {
            Some(p) => n < split_char(v@, ',').len() && p@ == split_char(v@, ',')[n as int],
            None => n >= split_char(v@, ',').len(),
        },
    decreases v@.len(),
{
    proof {
        lemma_find_char_from(v@, ',', 0);
    }
    let len = v.len();
    match find_char(v, ',', 0) {
        Some(i) => {
            if n == 0 {
                Some(slice_chars(v, 0, i))
            } else {
                let tail = slice_chars(v, i + 1, len);
                nth_piece(&tail, n - 1)
            }
        },
        None => {
            if n == 0 {
                Some(copy_chars(v))
            } else {
                None
            }
        },
    }
}

/// The `n`-th comma-separated field of an event payload.
pub fn nth_csv_field(data: &str, n: usize) -> (r: Option<String>)
    ensures
        match (r, nth_field(data@, n as nat)) {
            (Some(f), Some(g)) => f@ == g,
            (None, None) => true,
            _ => false,
        },
{
    let v = chars_of(data);
    match nth_piece(&v, n) {
        Some(p) => Some(string_of(&p)),
        None => None,
    }
}

/// Whether a token names a monitor output (`DP-1`, `eDP-1`, `HDMI-A-1`, …),
/// compared case-insensitively.
pub open spec fn spec_is_monitor_name(s: Seq<char>) -> bool {
    let u = ascii_upper_seq(s);
    has_prefix(u, "DP-"@) || has_prefix(u, "EDP-"@) || has_prefix(u, "HDMI-"@) || has_prefix(
        u,
        "DVI-"@,
    ) || has_prefix(u, "VGA-"@) || has_prefix(u, "WL-"@) || has_prefix(u, "HEADLESS-"@)
}

/// Whether a token names a monitor output.
pub fn is_monitor_name(token: &Vec<char>) -> (r: bool)
    ensures
        r == spec_is_monitor_name(token@),
{
    let up = ascii_uppercase(token);
    starts_with(&up, "DP-") || starts_with(&up, "EDP-") || starts_with(&up, "HDMI-")
        || starts_with(&up, "DVI-") || starts_with(&up, "VGA-") || starts_with(&up, "WL-")
        || starts_with(&up, "HEADLESS-")
}

/// Whether `c` is an ASCII hexadecimal digit.
pub open spec fn is_hex_digit(c: char) -> bool {
    is_digit(c) || ('a' <= c && c <= 'f') || ('A' <= c && c <= 'F')
}

/// Whether every character of `s` is an ASCII hexadecimal digit.
pub open spec fn all_hex(s: Seq<char>) -> bool {
    forall|i: int| 0 <= i < s.len() ==> is_hex_digit(#[trigger] s[i])
}

fn all_digit_chars(v: &Vec<char>) -> (r: bool)
    ensures
        r == all_digits(v@),
{
    let mut i: usize = 0;
    while i < v.len()
        invariant
            i <= v@.len(),
            forall|j: int| 0 <= j < i ==> is_digit(#[trigger] v@[j]),
        decreases v@.len() - i,
    {
        if !('0' <= v[i] && v[i] <= '9') {
            return false;
        }
        i = i + 1;
    }
    true
}

fn all_hex_chars(v: &Vec<char>) -> (r: bool)
    ensures
        r == all_hex(v@),
{
    let mut i: usize = 0;
    while i < v.len()
        invariant
            i <= v@.len(),
            forall|j: int| 0 <= j < i ==> is_hex_digit(#[trigger] v@[j]),
        decreases v@.len() - i,
    {
        let c = v[i];
        if !(('0' <= c && c <= '9') || ('a' <= c && c <= 'f') || ('A' <= c && c <= 'F')) {
            return false;
        }
        i = i + 1;
    }
    true
}

/// A candidate scope taken from an event payload: trimmed and lowercased, and
/// refused when empty, a monitor name, all digits, or a hex address of six or
/// more digits.
pub open spec fn spec_normalize_scope(candidate: Seq<char>) -> Option<Seq<char>> {
    let t = trim(candidate);
    if t.len() == 0 || spec_is_monitor_name(t) || all_digits(t) || (t.len() >= 6 && all_hex(t)) {
        None
    } else {
        Some(ascii_lower_seq(t))
    }
}

fn normalize_chars(candidate: &Vec<char>) -> (r: Option<Vec<char>>)
    ensures
        match (r, spec_normalize_scope(candidate@)) {
            (Some(a), Some(b)) => a@ == b,
            (None, None) => true,
            _ => false,
        },
{
    let t = trim_chars(candidate);
    if t.len() == 0 {
        return None;
    }
    if is_monitor_name(&t) {
        return None;
    }
    if all_digit_chars(&t) {
        return None;
    }
    if t.len() >= 6 && all_hex_chars(&t) {
        return None;
    }
    Some(ascii_lowercase(&t))
}

/// Turns a payload field into a scope, or refuses it.
pub fn normalize_scope_candidate(candidate: &str) -> (r: Option<String>)
    ensures
        match (r, spec_normalize_scope(candidate@)) {
            (Some(a), Some(b)) => a@ == b,
            (None, None) => true,
            _ => false,
        },
{
    let v = chars_of(candidate);
    match normalize_chars(&v) {
        Some(s) => Some(string_of(&s)),
        None => None,
    }
}

/// The application scope named by a window event: the class field of
/// `openwindow` (third) or `activewindow` (first).
pub open spec fn spec_extract_app_scope(e: HyprlandEventView) -> Option<Seq<char>> {
    let field = if e.name == "openwindow"@ {
        nth_field(e.data, 2)
    } else if e.name == "activewindow"@ {
        nth_field(e.data, 0)
    } else {
        None
    };
    match field {
        Some(c) => spec_normalize_scope(c),
        None => None,
    }
}

/// The application scope named by a window event.
pub fn extract_app_scope(event: &HyprlandEvent) -> (r: Option<String>)
    ensures
        match (r, spec_extract_app_scope(event@)) {
            (Some(a), Some(b)) => a@ == b,
            (None, None) => true,
            _ => false,
        },
{
    let field = if str_eq(event.name.as_str(), "openwindow") {
        nth_csv_field(event.data.as_str(), 2)
    } else if str_eq(event.name.as_str(), "activewindow") {
        nth_csv_field(event.data.as_str(), 0)
    } else {
        None
    };
    match field {
        Some(c) => normalize_scope_candidate(c.as_str()),
        None => None,
    }
}

/// Characters that make up a word of a payload (`[A-Za-z0-9_-]`).
pub open spec fn is_token_char(c: char) -> bool {
    is_digit(c) || ('a' <= c && c <= 'z') || ('A' <= c && c <= 'Z') || c == '-' || c == '_'
}

/// The pieces of `s` between characters that are not token characters
/// (`str::split` with that predicate), empty pieces included.
pub open spec fn split_tokens(s: Seq<char>) -> Seq<Seq<char>>
    decreases s.len(),
{
    if s.len() == 0 {
        seq![Seq::<char>::empty()]
    } else {
        let init = split_tokens(s.drop_last());
        if is_token_char(s.last()) {
            init.update(init.len() - 1, init.last().push(s.last()))
        } else {
            init.push(Seq::<char>::empty())
        }
    }
}

/// A payload word that names a Hyprland tool: non-empty, accepted as a scope,
/// and starting with `hypr` once lowercased.
pub open spec fn hypr_scope_of(token: Seq<char>) -> Option<Seq<char>> {
    if token.len() > 0 {
        match spec_normalize_scope(token) {
            Some(x) => if has_prefix(x, "hypr"@) {
                Some(x)
            } else {
                None
            },
            None => None,
        }
    } else {
        None
    }
}

/// The first of `tokens` that names a Hyprland tool.
pub open spec fn first_hypr_scope(tokens: Seq<Seq<char>>) -> Option<Seq<char>>
    decreases tokens.len(),
{
    if tokens.len() == 0 {
        None
    } else {
        match hypr_scope_of(tokens[0]) {
            Some(x) => Some(x),
            None => first_hypr_scope(tokens.drop_first()),
        }
    }
}

/// The first word of a payload that names a Hyprland tool (`hyprpaper`, `hyprlock`, …).
pub open spec fn spec_find_hypr_app_token(data: Seq<char>) -> Option<Seq<char>> {
    first_hypr_scope(split_tokens(data))
}

fn hypr_scope_chars(token: &Vec<char>) -> (r: Option<Vec<char>>)
    ensures
        match (r, hypr_scope_of(token@)) {
            (Some(a), Some(b)) => a@ == b,
            (None, None) => true,
            _ => false,
        },
{
    if token.len() == 0 {
        return None;
    }
    match normalize_chars(token) {
        Some(x) => if starts_with(&x, "hypr") {
            Some(x)
        } else {
            None
        },
        None => None,
    }
}

fn token_char(c: char) -> (r: bool)
    ensures
        r == is_token_char(c),
{
    ('0' <= c && c <= '9') || ('a' <= c && c <= 'z') || ('A' <= c && c <= 'Z') || c == '-' || c
        == '_'
}

/// The first word of a payload that names a Hyprland tool.
pub fn find_hypr_app_token(data: &str) -> (r: Option<String>)
    ensures
        match (r, spec_find_hypr_app_token(data@)) {
            (Some(a), Some(b)) => a@ == b,
            (None, None) => true,
            _ => false,
        },
{
    let v = chars_of(data);
    let mut toks: Vec<Vec<char>> = Vec::new();
    let mut cur: Vec<char> = Vec::new();
    let mut i: usize = 0;
    assert(v@.take(0) =~= Seq::<char>::empty());
    assert(crate::text::vviews(toks@).push(cur@) =~= split_tokens(v@.take(0)));
    while i < v.len()
        invariant
            i <= v@.len(),
            crate::text::vviews(toks@).push(cur@) == split_tokens(v@.take(i as int)),
        decreases v@.len() - i,
    {
        let c = v[i];
        let ghost before = crate::text::vviews(toks@);
        assert(v@.take(i + 1).drop_last() =~= v@.take(i as int));
        assert(v@.take(i + 1).last() == c);
        if token_char(c) {
            let ghost old_cur = cur@;
            cur.push(c);
            assert(crate::text::vviews(toks@).push(cur@) =~= before.push(old_cur).update(
                before.len() as int,
                old_cur.push(c),
            ));
        } else {
            let mut done: Vec<char> = Vec::new();
            std::mem::swap(&mut done, &mut cur);
            toks.push(done);
            assert(crate::text::vviews(toks@) =~= before.push(done@));
            assert(cur@ =~= Seq::<char>::empty());
        }
        i = i + 1;
    }
    assert(v@.take(v@.len() as int) =~= v@);
    toks.push(cur);
    let ghost all = crate::text::vviews(toks@);
    assert(all == split_tokens(v@));
    let mut k: usize = 0;
    assert(all.skip(0) =~= all);
    while k < toks.len()
        invariant
            k <= toks@.len(),
            all == crate::text::vviews(toks@),
            all == split_tokens(data@),
            first_hypr_scope(all) == first_hypr_scope(all.skip(k as int)),
        decreases toks@.len() - k,
    {
        assert(all.skip(k as int)[0] == toks@[k as int]@);
        assert(all.skip(k as int).drop_first() =~= all.skip(k + 1));
        match hypr_scope_chars(&toks[k]) {
            Some(x) => {
                assert(all.skip(k as int).len() > 0);
                assert(first_hypr_scope(all.skip(k as int)) == Some(x@));
                return Some(string_of(&x));
            },
            None => {},
        }
        k = k + 1;
    }
    None
}

/// The scope an event is logged under: a configured per-event scope, `hyprctl`
/// for custom events, the application named by a window event, a Hyprland tool
/// named in the payload, else `hyprland`.
pub open spec fn spec_resolve_event_scope(config: HyprlandConfigView, e: HyprlandEventView) -> Seq<char> {
    if config.event_scopes.contains_key(e.name) {
        config.event_scopes[e.name]
    } else if e.name == "custom"@ {
        "hyprctl"@
    } else if spec_extract_app_scope(e) is Some {
        spec_extract_app_scope(e).unwrap()
    } else if spec_find_hypr_app_token(e.data) is Some {
        spec_find_hypr_app_token(e.data).unwrap()
    } else {
        "hyprland"@
    }
}

/// The scope an event is logged under.
pub fn resolve_event_scope(config: &HyprlandConfig, event: &HyprlandEvent) -> (r: String)
    ensures
        r@ == spec_resolve_event_scope(config@, event@),
{
    if let Some(scope) = config.event_scopes.get(event.name.as_str()) {
        return scope.clone();
    }
    if str_eq(event.name.as_str(), "custom") {
        return owned("hyprctl");
    }
    if let Some(scope) = extract_app_scope(event) {
        return scope;
    }
    if let Some(scope) = find_hypr_app_token(event.data.as_str()) {
        return scope;
    }
    owned("hyprland")
}

/// Whether an event passes the configured block list and, when one is set, the allow list.
pub open spec fn spec_event_wanted(config: HyprlandConfigView, name: Seq<char>) -> bool {
    !config.ignore_events.contains(name) && match config.event_filter {
        Some(allowed) => allowed.contains(name),
        None => true,
    }
}

/// A log line decided for an event: its level, scope and message.
pub struct RoutedEvent {
    pub level: Level,
    pub scope: String,
    pub message: String,
}

/// Decides what one event from the socket becomes: nothing when it is blocked
/// or not allowed, else a log line whose message is formatted before the
/// formatter learns from the event.
pub fn route_event(config: &HyprlandConfig, formatter: &mut EventFormatter, event: &HyprlandEvent) -> (r: Option<RoutedEvent>)
    ensures
        spec_event_wanted(config@, event@.name) <==> r is Some,
        match r {
            Some(line) => {
                &&& line.level == spec_resolve_level(event@.name, config@.event_levels)
                &&& line.scope@ == spec_resolve_event_scope(config@, event@)
                &&& line.message@ == spec_format_event(old(formatter)@, event@)
                &&& final(formatter)@.window_cache == spec_observe(old(formatter)@.window_cache, event@)
                &&& final(formatter)@.human_readable == old(formatter)@.human_readable
            },
            None => final(formatter)@ == old(formatter)@,
        },
{
    if crate::text::strings_contain(&config.ignore_events, event.name.as_str()) {
        return None;
    }
    if let Some(filter) = &config.event_filter {
        if !crate::text::strings_contain(filter, event.name.as_str()) {
            return None;
        }
    }
    let level = resolve_level(event.name.as_str(), &config.event_levels);
    let scope = resolve_event_scope(config, event);
    let message = formatter.format(event);
    formatter.observe(event);
    Some(RoutedEvent { level, scope, message })
}


/// A blocked event is never logged, and with an allow list only listed events are.
pub proof fn law_blocked_events_dropped(config: HyprlandConfigView, name: Seq<char>)
    ensures
        config.ignore_events.contains(name) ==> !spec_event_wanted(config, name),
        (config.event_filter matches Some(allowed) && !allowed.contains(name)) ==> !spec_event_wanted(config, name),
{
}

} // verus!
