//! Readable rendering of compositor events: `window opened (openwindow): app=kitty …`.
//!
//! The formatter remembers which application opened each window address, so that
//! later events that only carry an address can name the application.
use crate::hyprland::event::{spec_format_message, HyprlandEvent, HyprlandEventView};
use crate::strmap::StrMap;
use crate::text::{
    ascii_lower_seq, ascii_lowercase, chars_eq_str, chars_of, copy_chars, dec, push_chars,
    push_dec, push_str, split_char, split_count, split_once, split_once_char, splitn,
    splitn_char, string_of, trim, trim_chars, vviews,
};
use vstd::prelude::*;

verus! {

/// The readable label of an event name.
pub open spec fn human_name(n: Seq<char>) -> Option<Seq<char>> {
    if n == "openwindow"@ {
        Some("window opened"@)
    } else if n == "closewindow"@ {
        Some("window closed"@)
    } else if n == "movewindow"@ || n == "movewindowv2"@ {
        Some("window moved"@)
    } else if n == "windowtitle"@ || n == "windowtitlev2"@ {
        Some("title changed"@)
    } else if n == "activewindow"@ || n == "activewindowv2"@ {
        Some("window focused"@)
    } else if n == "urgent"@ {
        Some("focus requested"@)
    } else if n == "fullscreen"@ {
        Some("fullscreen toggled"@)
    } else if n == "changefloatingmode"@ {
        Some("float toggled"@)
    } else if n == "minimized"@ {
        Some("minimized"@)
    } else if n == "pin"@ {
        Some("pin toggled"@)
    } else if n == "workspace"@ || n == "workspacev2"@ {
        Some("workspace changed"@)
    } else if n == "createworkspace"@ || n == "createworkspacev2"@ {
        Some("workspace created"@)
    } else if n == "destroyworkspace"@ || n == "destroyworkspacev2"@ {
        Some("workspace destroyed"@)
    } else if n == "moveworkspace"@ || n == "moveworkspacev2"@ {
        Some("workspace moved"@)
    } else if n == "renameworkspace"@ {
        Some("workspace renamed"@)
    } else if n == "activespecial"@ || n == "activespecialv2"@ {
        Some("special workspace"@)
    } else if n == "focusedmon"@ || n == "focusedmonv2"@ {
        Some("monitor focus"@)
    } else if n == "monitoradded"@ || n == "monitoraddedv2"@ {
        Some("monitor added"@)
    } else if n == "monitorremoved"@ || n == "monitorremovedv2"@ {
        Some("monitor removed"@)
    } else if n == "togglegroup"@ {
        Some("group toggled"@)
    } else if n == "lockgroups"@ {
        Some("groups locked"@)
    } else if n == "moveintogroup"@ {
        Some("moved into group"@)
    } else if n == "moveoutofgroup"@ {
        Some("moved out of group"@)
    } else if n == "ignoregrouplock"@ {
        Some("group lock ignore"@)
    } else if n == "openlayer"@ {
        Some("layer opened"@)
    } else if n == "closelayer"@ {
        Some("layer closed"@)
    } else if n == "activelayout"@ {
        Some("layout changed"@)
    } else if n == "submap"@ {
        Some("submap"@)
    } else if n == "screencast"@ {
        Some("screencast"@)
    } else if n == "configreloaded"@ {
        Some("config reloaded"@)
    } else if n == "bell"@ {
        Some("bell"@)
    } else {
        None
    }
}

fn human_label(n: &Vec<char>) -> (r: Option<&'static str>)
    ensures
        match (r, human_name(n@)) {
            (Some(a), Some(b)) => a@ == b,
            (None, None) => true,
            _ => false,
        },
{
    if chars_eq_str(n, "openwindow") {
        Some("window opened")
    } else if chars_eq_str(n, "closewindow") {
        Some("window closed")
    } else if chars_eq_str(n, "movewindow") || chars_eq_str(n, "movewindowv2") {
        Some("window moved")
    } else if chars_eq_str(n, "windowtitle") || chars_eq_str(n, "windowtitlev2") {
        Some("title changed")
    } else if chars_eq_str(n, "activewindow") || chars_eq_str(n, "activewindowv2") {
        Some("window focused")
    } else if chars_eq_str(n, "urgent") {
        Some("focus requested")
    } else if chars_eq_str(n, "fullscreen") {
        Some("fullscreen toggled")
    } else if chars_eq_str(n, "changefloatingmode") {
        Some("float toggled")
    } else if chars_eq_str(n, "minimized") {
        Some("minimized")
    } else if chars_eq_str(n, "pin") {
        Some("pin toggled")
    } else if chars_eq_str(n, "workspace") || chars_eq_str(n, "workspacev2") {
        Some("workspace changed")
    } else if chars_eq_str(n, "createworkspace") || chars_eq_str(n, "createworkspacev2") {
        Some("workspace created")
    } else if chars_eq_str(n, "destroyworkspace") || chars_eq_str(n, "destroyworkspacev2") {
        Some("workspace destroyed")
    } else if chars_eq_str(n, "moveworkspace") || chars_eq_str(n, "moveworkspacev2") {
        Some("workspace moved")
    } else if chars_eq_str(n, "renameworkspace") {
        Some("workspace renamed")
    } else if chars_eq_str(n, "activespecial") || chars_eq_str(n, "activespecialv2") {
        Some("special workspace")
    } else if chars_eq_str(n, "focusedmon") || chars_eq_str(n, "focusedmonv2") {
        Some("monitor focus")
    } else if chars_eq_str(n, "monitoradded") || chars_eq_str(n, "monitoraddedv2") {
        Some("monitor added")
    } else if chars_eq_str(n, "monitorremoved") || chars_eq_str(n, "monitorremovedv2") {
        Some("monitor removed")
    } else if chars_eq_str(n, "togglegroup") {
        Some("group toggled")
    } else if chars_eq_str(n, "lockgroups") {
        Some("groups locked")
    } else if chars_eq_str(n, "moveintogroup") {
        Some("moved into group")
    } else if chars_eq_str(n, "moveoutofgroup") {
        Some("moved out of group")
    } else if chars_eq_str(n, "ignoregrouplock") {
        Some("group lock ignore")
    } else if chars_eq_str(n, "openlayer") {
        Some("layer opened")
    } else if chars_eq_str(n, "closelayer") {
        Some("layer closed")
    } else if chars_eq_str(n, "activelayout") {
        Some("layout changed")
    } else if chars_eq_str(n, "submap") {
        Some("submap")
    } else if chars_eq_str(n, "screencast") {
        Some("screencast")
    } else if chars_eq_str(n, "configreloaded") {
        Some("config reloaded")
    } else if chars_eq_str(n, "bell") {
        Some("bell")
    } else {
        None
    }
}

// --- Specifications of the per-event payload formats ---

/// The `i`-th field, empty when there is none.
pub open spec fn field(fs: Seq<Seq<char>>, i: int) -> Seq<char> {
    if 0 <= i < fs.len() {
        fs[i]
    } else {
        Seq::empty()
    }
}

/// `true` when the trimmed flag is `1`, else `false`.
pub open spec fn bool_word(flag: Seq<char>) -> Seq<char> {
    if trim(flag) == "1"@ {
        "true"@
    } else {
        "false"@
    }
}

/// `opened` when the trimmed flag is `1`, else `closed`.
pub open spec fn group_state(flag: Seq<char>) -> Seq<char> {
    if trim(flag) == "1"@ {
        "opened"@
    } else {
        "closed"@
    }
}

/// `openwindow` payload `addr,ws,class,title`.
pub open spec fn fmt_openwindow(cache: Map<Seq<char>, Seq<char>>, data: Seq<char>) -> Seq<char> {
    let fs = splitn_char(data, 4, ',');
    let addr = trim(field(fs, 0));
    let app = if cache.contains_key(addr) {
        cache[addr]
    } else {
        ascii_lower_seq(trim(field(fs, 2)))
    };
    "app="@ + app + " title=\""@ + field(fs, 3) + "\" ws="@ + field(fs, 1)
}

/// A payload that is a window address: the remembered application, or the address.
pub open spec fn fmt_address_only(cache: Map<Seq<char>, Seq<char>>, data: Seq<char>) -> Seq<char> {
    let addr = trim(data);
    if cache.contains_key(addr) {
        "app="@ + cache[addr]
    } else {
        addr
    }
}

/// `addr,value`: `key=value` (`key="value"` for titles).
pub open spec fn fmt_addr_comma_value(data: Seq<char>, key: Seq<char>) -> Seq<char> {
    match split_once_char(data, ',') {
        Some((_addr, value)) => if key == "title"@ {
            key + "=\""@ + value + "\""@
        } else {
            key + "="@ + value
        },
        None => data,
    }
}

/// `addr,flag`: optional `app=… ` then `key=true|false`.
pub open spec fn fmt_addr_bool(cache: Map<Seq<char>, Seq<char>>, data: Seq<char>, key: Seq<char>) -> Seq<char> {
    match split_once_char(data, ',') {
        Some((addr, flag)) => {
            let app_part = if cache.contains_key(trim(addr)) {
                "app="@ + cache[trim(addr)] + " "@
            } else {
                Seq::empty()
            };
            app_part + key + "="@ + bool_word(flag)
        },
        None => data,
    }
}

/// `class,title`.
pub open spec fn fmt_activewindow(data: Seq<char>) -> Seq<char> {
    match split_once_char(data, ',') {
        Some((class, title)) => "app="@ + class + " title=\""@ + title + "\""@,
        None => data,
    }
}

/// `addr,wsid,wsname`: the workspace name.
pub open spec fn fmt_movewindowv2(data: Seq<char>) -> Seq<char> {
    let fs = splitn_char(data, 3, ',');
    if fs.len() >= 3 {
        "ws="@ + fs[2]
    } else {
        data
    }
}

/// `0|1`: `key=true|false`.
pub open spec fn fmt_bool(data: Seq<char>, key: Seq<char>) -> Seq<char> {
    key + "="@ + bool_word(data)
}

/// `id,name`.
pub open spec fn fmt_id_name(data: Seq<char>) -> Seq<char> {
    match split_once_char(data, ',') {
        Some((id, name)) => "id="@ + id + " name="@ + name,
        None => "name="@ + data,
    }
}

/// `k1=f1 k2=f2 …` over as many keys and fields as both have.
pub open spec fn kv_join(keys: Seq<Seq<char>>, fields: Seq<Seq<char>>) -> Seq<char>
    decreases keys.len(),
{
    if keys.len() == 0 || fields.len() == 0 {
        Seq::empty()
    } else if keys.len() == 1 || fields.len() == 1 {
        keys[0] + "="@ + fields[0]
    } else {
        keys[0] + "="@ + fields[0] + " "@ + kv_join(keys.drop_first(), fields.drop_first())
    }
}

/// Positional comma-separated fields labelled with `keys`.
pub open spec fn fmt_csv_kv(data: Seq<char>, keys: Seq<Seq<char>>) -> Seq<char> {
    kv_join(keys, splitn_char(data, keys.len(), ','))
}

/// `flag,addr,addr,…`: open state and window count.
pub open spec fn fmt_togglegroup(data: Seq<char>) -> Seq<char> {
    match split_once_char(data, ',') {
        Some((flag, rest)) => "state="@ + group_state(flag) + " windows="@ + dec(
            split_char(rest, ',').len(),
        ),
        None => "state="@ + group_state(data),
    }
}

/// `flag,owner`.
pub open spec fn fmt_screencast(data: Seq<char>) -> Seq<char> {
    match split_once_char(data, ',') {
        Some((flag, owner)) => "active="@ + bool_word(flag) + " owner="@ + owner,
        None => data,
    }
}

/// The readable payload of an event.
pub open spec fn spec_format_data(cache: Map<Seq<char>, Seq<char>>, n: Seq<char>, d: Seq<char>) -> Seq<char> {
    if n == "openwindow"@ {
        fmt_openwindow(cache, d)
    } else if n == "closewindow"@ || n == "urgent"@ || n == "windowtitle"@ || n == "activewindowv2"@
        || n == "moveintogroup"@ || n == "moveoutofgroup"@ || n == "bell"@ {
        fmt_address_only(cache, d)
    } else if n == "windowtitlev2"@ {
        fmt_addr_comma_value(d, "title"@)
    } else if n == "activewindow"@ {
        fmt_activewindow(d)
    } else if n == "movewindow"@ {
        fmt_addr_comma_value(d, "ws"@)
    } else if n == "movewindowv2"@ {
        fmt_movewindowv2(d)
    } else if n == "fullscreen"@ || n == "lockgroups"@ || n == "ignoregrouplock"@ {
        fmt_bool(d, "enabled"@)
    } else if n == "changefloatingmode"@ {
        fmt_addr_bool(cache, d, "tiled"@)
    } else if n == "minimized"@ {
        fmt_addr_bool(cache, d, "minimized"@)
    } else if n == "pin"@ {
        fmt_addr_bool(cache, d, "pinned"@)
    } else if n == "workspace"@ || n == "createworkspace"@ || n == "destroyworkspace"@ || n
        == "monitoradded"@ || n == "monitorremoved"@ {
        "name="@ + d
    } else if n == "workspacev2"@ || n == "createworkspacev2"@ || n == "destroyworkspacev2"@ {
        fmt_id_name(d)
    } else if n == "moveworkspace"@ || n == "activespecial"@ {
        fmt_csv_kv(d, seq!["name"@, "monitor"@])
    } else if n == "moveworkspacev2"@ || n == "activespecialv2"@ {
        fmt_csv_kv(d, seq!["id"@, "name"@, "monitor"@])
    } else if n == "renameworkspace"@ {
        fmt_csv_kv(d, seq!["id"@, "name"@])
    } else if n == "focusedmon"@ {
        fmt_csv_kv(d, seq!["monitor"@, "workspace"@])
    } else if n == "focusedmonv2"@ {
        fmt_csv_kv(d, seq!["monitor"@, "id"@])
    } else if n == "monitoraddedv2"@ || n == "monitorremovedv2"@ {
        fmt_csv_kv(d, seq!["id"@, "name"@, "description"@])
    } else if n == "togglegroup"@ {
        fmt_togglegroup(d)
    } else if n == "openlayer"@ || n == "closelayer"@ {
        "namespace="@ + d
    } else if n == "activelayout"@ {
        fmt_csv_kv(d, seq!["keyboard"@, "layout"@])
    } else if n == "screencast"@ {
        fmt_screencast(d)
    } else {
        d
    }
}

/// The value of a formatter: the window cache and the mode.
pub struct EventFormatterView {
    pub window_cache: Map<Seq<char>, Seq<char>>,
    pub human_readable: bool,
}

/// The line logged for an event.
pub open spec fn spec_format_event(f: EventFormatterView, e: HyprlandEventView) -> Seq<char> {
    if !f.human_readable {
        spec_format_message(e)
    } else if e.data.len() == 0 {
        match human_name(e.name) {
            Some(l) => l,
            None => e.name,
        }
    } else {
        let fd = spec_format_data(f.window_cache, e.name, e.data);
        match human_name(e.name) {
            Some(l) => l + " ("@ + e.name + "): "@ + fd,
            None => e.name + ": "@ + fd,
        }
    }
}

/// The window cache after an event: `openwindow` remembers address → lowercase
/// class, `closewindow` forgets the address, other events change nothing.
pub open spec fn spec_observe(cache: Map<Seq<char>, Seq<char>>, e: HyprlandEventView) -> Map<Seq<char>, Seq<char>> {
    if e.name == "openwindow"@ {
        let fs = splitn_char(e.data, 4, ',');
        if fs.len() >= 3 {
            let addr = trim(fs[0]);
            let class = trim(fs[2]);
            if addr.len() > 0 && class.len() > 0 {
                cache.insert(addr, ascii_lower_seq(class))
            } else {
                cache
            }
        } else {
            cache
        }
    } else if e.name == "closewindow"@ {
        let addr = trim(e.data);
        if addr.len() > 0 {
            cache.remove(addr)
        } else {
            cache
        }
    } else {
        cache
    }
}

/// Formats events, remembering window addresses across calls.
pub struct EventFormatter {
    window_cache: StrMap<String>,
    human_readable: bool,
}

impl View for EventFormatter {
    type V = EventFormatterView;

    closed spec fn view(&self) -> EventFormatterView {
        EventFormatterView { window_cache: self.window_cache@, human_readable: self.human_readable }
    }
}

fn trimmed_is_one(v: &Vec<char>) -> (r: bool)
    ensures
        r == (trim(v@) == "1"@),
{
    let t = trim_chars(v);
    chars_eq_str(&t, "1")
}

fn push_bool_word(out: &mut Vec<char>, flag: &Vec<char>)
    ensures
        final(out)@ == old(out)@ + bool_word(flag@),
{
    if trimmed_is_one(flag) {
        push_str(out, "true");
    } else {
        push_str(out, "false");
    }
}

fn field_or_empty(fs: &Vec<Vec<char>>, i: usize) -> (r: Vec<char>)
    ensures
        r@ == field(vviews(fs@), i as int),
{
    if i < fs.len() {
        copy_chars(&fs[i])
    } else {
        Vec::new()
    }
}

fn format_csv_kv(data: &Vec<char>, keys: &Vec<&str>) -> (r: Vec<char>)
    requires
        keys@.len() >= 1,
    ensures
        r@ == fmt_csv_kv(data@, keys@.map_values(|k: &str| k@)),
{
    let fields = splitn(data, keys.len(), ',');
    let ghost kv = keys@.map_values(|k: &str| k@);
    let ghost fv = vviews(fields@);
    let n = if keys.len() < fields.len() {
        keys.len()
    } else {
        fields.len()
    };
    let mut out: Vec<char> = Vec::new();
    let mut i: usize = 0;
    assert(kv.skip(0) =~= kv);
    assert(fv.skip(0) =~= fv);
    assert(out@ + kv_join(kv, fv) =~= kv_join(kv, fv));
    while i < n
        invariant
            n <= keys@.len(),
            n <= fields@.len(),
            n == keys@.len() || n == fields@.len(),
            i <= n,
            kv == keys@.map_values(|k: &str| k@),
            fv == vviews(fields@),
            kv_join(kv, fv) == out@ + (if i == 0 {
                kv_join(kv.skip(i as int), fv.skip(i as int))
            } else {
                kv_tail(kv.skip(i as int), fv.skip(i as int))
            }),
        decreases n - i,
    {
        let ghost before = out@;
        let ghost ks = kv.skip(i as int);
        let ghost fs = fv.skip(i as int);
        if i > 0 {
            push_str(&mut out, " ");
        }
        push_str(&mut out, keys[i]);
        push_str(&mut out, "=");
        push_chars(&mut out, &fields[i]);
        proof {
            assert(ks.drop_first() =~= kv.skip(i + 1));
            assert(fs.drop_first() =~= fv.skip(i + 1));
            assert(ks[0] == keys@[i as int]@);
            assert(fs[0] == fields@[i as int]@);
            lemma_kv_join_step(ks, fs);
            if i > 0 {
                assert(out@ =~= before + (" "@ + ks[0] + "="@ + fs[0]));
                assert(kv_tail(ks, fs) =~= " "@ + ks[0] + "="@ + fs[0] + kv_tail(ks.drop_first(), fs.drop_first()));
            } else {
                assert(out@ =~= before + (ks[0] + "="@ + fs[0]));
            }
            assert(before + kv_tail(ks, fs) =~= out@ + kv_tail(ks.drop_first(), fs.drop_first()) || i == 0);
        }
        i = i + 1;
    }
    proof {
        assert(kv.skip(n as int).len() == 0 || fv.skip(n as int).len() == 0);
    }
    out
}

/// What follows a pair in `kv_join`: nothing, or a space and the remaining pairs.
pub open spec fn kv_tail(ks: Seq<Seq<char>>, fs: Seq<Seq<char>>) -> Seq<char> {
    if ks.len() == 0 || fs.len() == 0 {
        Seq::empty()
    } else {
        " "@ + kv_join(ks, fs)
    }
}

/// Unfolds `kv_join` by one pair, as the loop in `format_csv_kv` emits it.
proof fn lemma_kv_join_step(ks: Seq<Seq<char>>, fs: Seq<Seq<char>>)
    requires
        ks.len() >= 1,
        fs.len() >= 1,
    ensures
        kv_join(ks, fs) == ks[0] + "="@ + fs[0] + kv_tail(ks.drop_first(), fs.drop_first()),
{
    if ks.len() == 1 || fs.len() == 1 {
        assert(ks[0] + "="@ + fs[0] + Seq::<char>::empty() =~= ks[0] + "="@ + fs[0]);
    } else {
        assert(ks[0] + "="@ + fs[0] + " "@ + kv_join(ks.drop_first(), fs.drop_first()) =~= ks[0]
            + "="@ + fs[0] + (" "@ + kv_join(ks.drop_first(), fs.drop_first())));
    }
}

impl EventFormatter {
    /// An empty cache; `human_readable` selects readable output over the raw wire form.
    pub fn new(human_readable: bool) -> (r: EventFormatter)
        ensures
            r@.window_cache == Map::<Seq<char>, Seq<char>>::empty(),
            r@.human_readable == human_readable,
    {
        EventFormatter { window_cache: StrMap::new(), human_readable }
    }

    /// Updates the window cache from an event; call it after `format` for the same event.
    pub fn observe(&mut self, event: &HyprlandEvent)
        ensures
            final(self)@.window_cache == spec_observe(old(self)@.window_cache, event@),
            final(self)@.human_readable == old(self)@.human_readable,
    {
        let name = chars_of(event.name.as_str());
        let data = chars_of(event.data.as_str());
        if chars_eq_str(&name, "openwindow") {
            let fields = splitn(&data, 4, ',');
            if fields.len() >= 3 {
                let addr = trim_chars(&fields[0]);
                let class = trim_chars(&fields[2]);
                assert(vviews(fields@)[0] == fields@[0]@ && vviews(fields@)[2] == fields@[2]@);
                if addr.len() > 0 && class.len() > 0 {
                    let lower = ascii_lowercase(&class);
                    self.window_cache.insert(string_of(&addr), string_of(&lower));
                }
            }
        } else if chars_eq_str(&name, "closewindow") {
            let addr = trim_chars(&data);
            if addr.len() > 0 {
                let a = string_of(&addr);
                self.window_cache.remove(a.as_str());
            }
        }
    }

    /// The line to log for an event.
    pub fn format(&self, event: &HyprlandEvent) -> (r: String)
        ensures
            r@ == spec_format_event(self@, event@),
    {
        if !self.human_readable {
            return event.format_message();
        }
        let name = chars_of(event.name.as_str());
        let human = human_label(&name);
        if event.data.as_str().is_empty() {
            return match human {
                Some(label) => crate::text::owned(label),
                None => event.name.clone(),
            };
        }
        let formatted = self.format_data(&name, event.data.as_str());
        let mut out: Vec<char> = Vec::new();
        match human {
            Some(label) => {
                push_str(&mut out, label);
                push_str(&mut out, " (");
                push_chars(&mut out, &name);
                push_str(&mut out, "): ");
                push_chars(&mut out, &formatted);
            },
            None => {
                push_chars(&mut out, &name);
                push_str(&mut out, ": ");
                push_chars(&mut out, &formatted);
            },
        }
        string_of(&out)
    }

    fn cached_app(&self, addr: &Vec<char>) -> (r: Option<String>)
        ensures
            match r {
                Some(a) => self@.window_cache.contains_key(addr@) && a@
                    == self@.window_cache[addr@],
                None => !self@.window_cache.contains_key(addr@),
            },
    {
        let key = string_of(addr);
        match self.window_cache.get(key.as_str()) {
            Some(app) => Some(app.clone()),
            None => None,
        }
    }

    fn format_data(&self, n: &Vec<char>, data_str: &str) -> (r: Vec<char>)
        ensures
            r@ == spec_format_data(self@.window_cache, n@, data_str@),
    {
        let d = chars_of(data_str);
        let mut out: Vec<char> = Vec::new();
        if chars_eq_str(n, "openwindow") {
            let fs = splitn(&d, 4, ',');
            let addr = trim_chars(&field_or_empty(&fs, 0));
            let ws = field_or_empty(&fs, 1);
            let class = field_or_empty(&fs, 2);
            let title = field_or_empty(&fs, 3);
            push_str(&mut out, "app=");
            match self.cached_app(&addr) {
                Some(app) => push_str(&mut out, app.as_str()),
                None => {
                    let lower = ascii_lowercase(&trim_chars(&class));
                    push_chars(&mut out, &lower);
                },
            }
            push_str(&mut out, " title=\"");
            push_chars(&mut out, &title);
            push_str(&mut out, "\" ws=");
            push_chars(&mut out, &ws);
        } else if chars_eq_str(n, "closewindow") || chars_eq_str(n, "urgent") || chars_eq_str(
            n,
            "windowtitle",
        ) || chars_eq_str(n, "activewindowv2") || chars_eq_str(n, "moveintogroup")
            || chars_eq_str(n, "moveoutofgroup") || chars_eq_str(n, "bell") {
            let addr = trim_chars(&d);
            match self.cached_app(&addr) {
                Some(app) => {
                    push_str(&mut out, "app=");
                    push_str(&mut out, app.as_str());
                },
                None => push_chars(&mut out, &addr),
            }
        } else if chars_eq_str(n, "windowtitlev2") {
            Self::addr_comma_value(&mut out, &d, "title");
        } else if chars_eq_str(n, "activewindow") {
            match split_once(&d, ',') {
                Some((class, title)) => {
                    push_str(&mut out, "app=");
                    push_chars(&mut out, &class);
                    push_str(&mut out, " title=\"");
                    push_chars(&mut out, &title);
                    push_str(&mut out, "\"");
                },
                None => push_chars(&mut out, &d),
            }
        } else if chars_eq_str(n, "movewindow") {
            Self::addr_comma_value(&mut out, &d, "ws");
        } else if chars_eq_str(n, "movewindowv2") {
            let fs = splitn(&d, 3, ',');
            if fs.len() >= 3 {
                push_str(&mut out, "ws=");
                push_chars(&mut out, &fs[2]);
            } else {
                push_chars(&mut out, &d);
            }
        } else if chars_eq_str(n, "fullscreen") || chars_eq_str(n, "lockgroups") || chars_eq_str(
            n,
            "ignoregrouplock",
        ) {
            push_str(&mut out, "enabled");
            push_str(&mut out, "=");
            push_bool_word(&mut out, &d);
        } else if chars_eq_str(n, "changefloatingmode") {
            self.addr_bool(&mut out, &d, "tiled");
        } else if chars_eq_str(n, "minimized") {
            self.addr_bool(&mut out, &d, "minimized");
        } else if chars_eq_str(n, "pin") {
            self.addr_bool(&mut out, &d, "pinned");
        } else if chars_eq_str(n, "workspace") || chars_eq_str(n, "createworkspace")
            || chars_eq_str(n, "destroyworkspace") || chars_eq_str(n, "monitoradded")
            || chars_eq_str(n, "monitorremoved") {
            push_str(&mut out, "name=");
            push_chars(&mut out, &d);
        } else if chars_eq_str(n, "workspacev2") || chars_eq_str(n, "createworkspacev2")
            || chars_eq_str(n, "destroyworkspacev2") {
            match split_once(&d, ',') {
                Some((id, name)) => {
                    push_str(&mut out, "id=");
                    push_chars(&mut out, &id);
                    push_str(&mut out, " name=");
                    push_chars(&mut out, &name);
                },
                None => {
                    push_str(&mut out, "name=");
                    push_chars(&mut out, &d);
                },
            }
        } else if chars_eq_str(n, "moveworkspace") || chars_eq_str(n, "activespecial") {
            out = Self::kv2(&d, "name", "monitor");
        } else if chars_eq_str(n, "moveworkspacev2") || chars_eq_str(n, "activespecialv2") {
            out = Self::kv3(&d, "id", "name", "monitor");
        } else if chars_eq_str(n, "renameworkspace") {
            out = Self::kv2(&d, "id", "name");
        } else if chars_eq_str(n, "focusedmon") {
            out = Self::kv2(&d, "monitor", "workspace");
        } else if chars_eq_str(n, "focusedmonv2") {
            out = Self::kv2(&d, "monitor", "id");
        } else if chars_eq_str(n, "monitoraddedv2") || chars_eq_str(n, "monitorremovedv2") {
            out = Self::kv3(&d, "id", "name", "description");
        } else if chars_eq_str(n, "togglegroup") {
            match split_once(&d, ',') {
                Some((flag, rest)) => {
                    push_str(&mut out, "state=");
                    if trimmed_is_one(&flag) {
                        push_str(&mut out, "opened");
                    } else {
                        push_str(&mut out, "closed");
                    }
                    push_str(&mut out, " windows=");
                    let dl = d.len();
                    proof {
                        crate::text::lemma_find_char_from(d@, ',', 0);
                    }
                    assert(rest@.len() < d@.len());
                    let count = split_count(&rest, ',');
                    push_dec(&mut out, count as u64);
                },
                None => {
                    push_str(&mut out, "state=");
                    if trimmed_is_one(&d) {
                        push_str(&mut out, "opened");
                    } else {
                        push_str(&mut out, "closed");
                    }
                },
            }
        } else if chars_eq_str(n, "openlayer") || chars_eq_str(n, "closelayer") {
            push_str(&mut out, "namespace=");
            push_chars(&mut out, &d);
        } else if chars_eq_str(n, "activelayout") {
            out = Self::kv2(&d, "keyboard", "layout");
        } else if chars_eq_str(n, "screencast") {
            match split_once(&d, ',') {
                Some((flag, owner)) => {
                    push_str(&mut out, "active=");
                    push_bool_word(&mut out, &flag);
                    push_str(&mut out, " owner=");
                    push_chars(&mut out, &owner);
                },
                None => push_chars(&mut out, &d),
            }
        } else {
            push_chars(&mut out, &d);
        }
        out
    }

    fn kv2(d: &Vec<char>, k1: &'static str, k2: &'static str) -> (r: Vec<char>)
        ensures
            r@ == fmt_csv_kv(d@, seq![k1@, k2@]),
    {
        let mut keys: Vec<&str> = Vec::new();
        keys.push(k1);
        keys.push(k2);
        assert(keys@.map_values(|k: &str| k@) =~= seq![k1@, k2@]);
        format_csv_kv(d, &keys)
    }

    fn kv3(d: &Vec<char>, k1: &'static str, k2: &'static str, k3: &'static str) -> (r: Vec<char>)
        ensures
            r@ == fmt_csv_kv(d@, seq![k1@, k2@, k3@]),
    {
        let mut keys: Vec<&str> = Vec::new();
        keys.push(k1);
        keys.push(k2);
        keys.push(k3);
        assert(keys@.map_values(|k: &str| k@) =~= seq![k1@, k2@, k3@]);
        format_csv_kv(d, &keys)
    }

    fn addr_comma_value(out: &mut Vec<char>, d: &Vec<char>, key: &'static str)
        ensures
            final(out)@ == old(out)@ + fmt_addr_comma_value(d@, key@),
    {
        match split_once(d, ',') {
            Some((_addr, value)) => {
                if chars_eq_str(&chars_of(key), "title") {
                    push_str(out, key);
                    push_str(out, "=\"");
                    push_chars(out, &value);
                    push_str(out, "\"");
                } else {
                    push_str(out, key);
                    push_str(out, "=");
                    push_chars(out, &value);
                }
            },
            None => push_chars(out, d),
        }
    }

    fn addr_bool(&self, out: &mut Vec<char>, d: &Vec<char>, key: &'static str)
        ensures
            final(out)@ == old(out)@ + fmt_addr_bool(self@.window_cache, d@, key@),
    {
        match split_once(d, ',') {
            Some((addr, flag)) => {
                let a = trim_chars(&addr);
                match self.cached_app(&a) {
                    Some(app) => {
                        push_str(out, "app=");
                        push_str(out, app.as_str());
                        push_str(out, " ");
                    },
                    None => {},
                }
                push_str(out, key);
                push_str(out, "=");
                push_bool_word(out, &flag);
            },
            None => push_chars(out, d),
        }
    }
}

impl Default for EventFormatter {
    fn default() -> (r: EventFormatter)
        ensures
            r@.window_cache == Map::<Seq<char>, Seq<char>>::empty(),
            r@.human_readable,
    {
        EventFormatter::new(true)
    }
}


/// Only window lifecycle events change the window cache.
pub proof fn law_observe_only_window_events(cache: Map<Seq<char>, Seq<char>>, e: HyprlandEventView)
    requires
        e.name != "openwindow"@,
        e.name != "closewindow"@,
    ensures
        spec_observe(cache, e) == cache,
{
}

/// Without readable output an event is logged in its wire form.
pub proof fn law_raw_output_is_wire_form(f: EventFormatterView, e: HyprlandEventView)
    requires
        !f.human_readable,
    ensures
        spec_format_event(f, e) == spec_format_message(e),
{
}

/// A focus event `class,title` (the class holding no comma) is logged as the
/// focused window's application followed by its quoted title.
pub proof fn law_activewindow_names_app_then_title(f: EventFormatterView, class: Seq<char>, title: Seq<char>)
    requires
        f.human_readable,
        !class.contains(','),
    ensures
        spec_format_event(f, HyprlandEventView { name: "activewindow"@, data: class + ","@ + title })
            == "window focused (activewindow): app="@ + class + " title=\""@ + title + "\""@,
{
    reveal_strlit(",");
    reveal_strlit("activewindow");
    reveal_strlit("openwindow");
    reveal_strlit("closewindow");
    reveal_strlit("movewindow");
    reveal_strlit("movewindowv2");
    reveal_strlit("windowtitle");
    reveal_strlit("windowtitlev2");
    reveal_strlit("urgent");
    reveal_strlit("activewindowv2");
    reveal_strlit("moveintogroup");
    reveal_strlit("moveoutofgroup");
    reveal_strlit("bell");
    reveal_strlit("window focused");
    reveal_strlit("window focused (activewindow): app=");
    reveal_strlit(" (");
    reveal_strlit("): ");
    reveal_strlit("app=");
    let n = "activewindow"@;
    let d = class + ","@ + title;
    assert(n[0] != "movewindowv2"@[0]);
    assert(n != "openwindow"@ && n != "closewindow"@ && n != "movewindow"@ && n != "movewindowv2"@);
    assert(n.len() != "windowtitle"@.len());
    assert(n.len() != "windowtitlev2"@.len());
    assert(n.len() != "urgent"@.len());
    assert(n.len() != "activewindowv2"@.len());
    assert(n != "moveintogroup"@ && n != "moveoutofgroup"@ && n != "bell"@);
    assert(d.len() > 0);
    assert(d[class.len() as int] == ',');
    assert forall|j: int| 0 <= j < class.len() implies d[j] != ',' by {
        assert(d[j] == class[j]);
        if d[j] == ',' {
            assert(class.contains(','));
        }
    }
    crate::text::lemma_find_char_first(d, ',', class.len() as int);
    assert(d.subrange(0, class.len() as int) =~= class);
    assert(d.subrange(class.len() + 1int, d.len() as int) =~= title);
    assert(split_once_char(d, ',') == Some((class, title)));
    assert(human_name(n) == Some("window focused"@));
    assert(spec_format_data(f.window_cache, n, d) == fmt_activewindow(d));
    assert("window focused (activewindow): app="@ =~= "window focused"@ + " ("@ + n + "): "@ + "app="@);
}

} // verus!
