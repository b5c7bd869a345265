//! Automatic highlighting: URLs, paths, quoted strings, numbers and keywords
//! of a message are wrapped in `<color>…</color>` tags before the style parser
//! runs, skipping text that is already tagged.
use crate::config::structs::HighlightConfig;
use crate::cleanup::order::{lemma_oldest_first, lemma_rank_desc_before, oldest_first, oldest_first_order, rank_desc};
use crate::fmt::style::{
    lemma_parse_plain_run, lemma_parse_tag_block, lemma_plain_all_concat, lemma_styled_text, parse_from,
    plain_tag_name, seg_text, spec_parse, spec_plain_all, styled, tag_block, SegmentView,
};
use crate::text::{chars_of, push_chars, push_str, slice_chars, string_of};
use vstd::prelude::*;

verus! {

/// The byte spans of the matches of `pattern` in `hay` (`regex::Regex::find_iter`),
/// or `None` when the pattern does not compile.
pub uninterp spec fn spec_regex_find(pattern: Seq<char>, hay: Seq<char>) -> Option<Seq<(usize, usize)>>;

/// For each match of `pattern` in `hay` (`regex::Regex::captures_iter`), the
/// byte span of capture group `group` when it took part; `None` when the
/// pattern does not compile.
pub uninterp spec fn spec_regex_group(pattern: Seq<char>, hay: Seq<char>, group: usize) -> Option<Seq<Option<(usize, usize)>>>;

/// `regex::escape`: the text with a backslash before every regex meta character.
pub open spec fn spec_regex_escape(s: Seq<char>) -> Seq<char>
    decreases s.len(),
{
    if s.len() == 0 {
        Seq::empty()
    } else {
        let c = s.last();
        spec_regex_escape(s.drop_last()) + if is_regex_meta(c) {
            seq!['\\', c]
        } else {
            seq![c]
        }
    }
}

/// The characters `regex::escape` escapes (`regex_syntax::is_meta_character`).
pub open spec fn is_regex_meta(c: char) -> bool {
    c == '\\' || c == '.' || c == '+' || c == '*' || c == '?' || c == '(' || c == ')' || c == '|'
        || c == '[' || c == ']' || c == '{' || c == '}' || c == '^' || c == '$' || c == '#' || c
        == '&' || c == '-' || c == '~'
}

/// `str::get(..byte)`: the prefix of `s` that ends at byte `byte`, when that
/// is a character boundary within `s`.
pub open spec fn spec_byte_prefix(s: Seq<char>, byte: usize) -> Option<Seq<char>> {
    match crate::text::char_index_at_byte(s, byte as nat) {
        Some(k) => Some(s.take(k as int)),
        None => None,
    }
}

/// Byte spans that run forward and come one after another without overlapping.
pub open spec fn byte_spans_in_order(v: Seq<(usize, usize)>) -> bool {
    &&& forall|k: int| 0 <= k < v.len() ==> (#[trigger] v[k]).0 <= v[k].1
    &&& forall|a: int, b: int| 0 <= a < b < v.len() ==> (#[trigger] v[a]).1 <= (#[trigger] v[b]).0
}

/// Compiles `pattern` (`regex::Regex::new`) and lists the byte spans of its
/// matches in `hay` (`find_iter`); named by `spec_regex_find`. As the crate
/// documents, `find_iter` yields successive non-overlapping matches, each
/// running forward.
#[verifier::external_body]
fn regex_find(pattern: &str, hay: &str) -> (r: Option<Vec<(usize, usize)>>)
    ensures
        match r {
            Some(v) => spec_regex_find(pattern@, hay@) == Some(v@) && byte_spans_in_order(v@),
            None => spec_regex_find(pattern@, hay@) is None,
        },
{
    match regex::Regex::new(pattern) {
        Ok(re) => Some(re.find_iter(hay).map(|m| (m.start(), m.end())).collect()),
        Err(_) => None,
    }
}

/// Compiles `pattern` and lists, for each match in `hay` (`captures_iter`),
/// the byte span of capture group `group`; named by `spec_regex_group`.
#[verifier::external_body]
fn regex_group(pattern: &str, hay: &str, group: usize) -> (r: Option<Vec<Option<(usize, usize)>>>)
    ensures
        match r {
            Some(v) => spec_regex_group(pattern@, hay@, group) == Some(v@),
            None => spec_regex_group(pattern@, hay@, group) is None,
        },
{
    match regex::Regex::new(pattern) {
        Ok(re) => Some(re.captures_iter(hay).map(|c| c.get(group).map(|m| (m.start(), m.end()))).collect()),
        Err(_) => None,
    }
}

/// `regex::escape`; its result is `spec_regex_escape` (the source escapes each
/// character that `regex_syntax::is_meta_character` names).
#[verifier::external_body]
fn regex_escape(s: &str) -> (r: String)
    ensures
        r@ == spec_regex_escape(s@),
{
    regex::escape(s)
}

/// `str::get(..byte)`: the prefix of `s` ending at byte `byte` when that is a
/// character boundary within `s` (`spec_byte_prefix`), as the standard library
/// documents it.
#[verifier::external_body]
fn byte_prefix(s: &str, byte: usize) -> (r: Option<&str>)
    ensures
        match r {
            Some(p) => spec_byte_prefix(s@, byte) == Some(p@) && p@.len() <= s@.len() && p@
                == s@.subrange(0, p@.len() as int),
            None => spec_byte_prefix(s@, byte) is None,
        },
{
    s.get(..byte)
}

/// Links: `http://` or `https://` up to whitespace or angle brackets.
pub const URL_PATTERN: &'static str = "https?://[^\\s<>]+";
/// Paths starting with `/`, `~/` or `./` that do not follow a word character or `<`.
pub const PATH_PATTERN: &'static str = "(?:^|[^<\\w])((?:/|~/|\\./)[\\w./-]+)";
/// Text in double or single quotes.
pub const QUOTED_PATTERN: &'static str = "\"[^\"]*\"|'[^']*'";
/// Integers and decimals, optionally negative.
pub const NUMBER_PATTERN: &'static str = "\\b-?\\d+(?:\\.\\d+)?\\b";
/// Text that already sits inside a `<tag>…</tag>` pair.
pub const EXISTING_TAG_PATTERN: &'static str = "<[^>]+>[^<]*</[^>]+>";

/// A piece of a message to wrap in a color tag.
pub struct TagMatch {
    /// Character offsets of the piece.
    pub start: usize,
    pub end: usize,
    /// The piece itself.
    pub text: Vec<char>,
    /// The color tag to wrap it in.
    pub color: String,
}

/// The value of a [`TagMatch`].
pub struct TagMatchView {
    pub start: int,
    pub end: int,
    pub text: Seq<char>,
    pub color: Seq<char>,
}

impl View for TagMatch {
    type V = TagMatchView;

    open spec fn view(&self) -> TagMatchView {
        TagMatchView {
            start: self.start as int,
            end: self.end as int,
            text: self.text@,
            color: self.color@,
        }
    }
}

/// The views of a list of matches.
pub open spec fn matches_view(v: Seq<TagMatch>) -> Seq<TagMatchView> {
    v.map_values(|m: TagMatch| m@)
}

/// Whether two character spans share a position.
pub open spec fn span_overlaps(a: (int, int), b: (int, int)) -> bool {
    a.0 < b.1 && b.0 < a.1
}

/// Whether a span shares a position with any of `spans`.
pub open spec fn overlaps_any(a: (int, int), spans: Seq<(int, int)>) -> bool {
    exists|i: int| 0 <= i < spans.len() && span_overlaps(a, #[trigger] spans[i])
}

/// Whether a span shares a position with any match already kept.
pub open spec fn overlaps_kept(a: (int, int), kept: Seq<TagMatchView>) -> bool {
    exists|i: int| 0 <= i < kept.len() && span_overlaps(a, (#[trigger] kept[i].start, kept[i].end))
}

/// The character span of a byte span of `msg`, when both ends are boundaries in order.
pub open spec fn char_span(msg: Seq<char>, b: (usize, usize)) -> Option<(int, int)> {
    match (spec_byte_prefix(msg, b.0), spec_byte_prefix(msg, b.1)) {
        (Some(p), Some(q)) => if p.len() <= q.len() {
            Some((p.len() as int, q.len() as int))
        } else {
            None
        },
        _ => None,
    }
}

/// The character spans of a list of byte spans, in order.
pub open spec fn char_spans(msg: Seq<char>, bs: Seq<(usize, usize)>) -> Seq<(int, int)>
    decreases bs.len(),
{
    if bs.len() == 0 {
        Seq::empty()
    } else {
        let init = char_spans(msg, bs.drop_last());
        match char_span(msg, bs.last()) {
            Some(s) => init.push(s),
            None => init,
        }
    }
}

/// The spans of the capture groups that took part.
pub open spec fn present_spans(caps: Seq<Option<(usize, usize)>>) -> Seq<(usize, usize)>
    decreases caps.len(),
{
    if caps.len() == 0 {
        Seq::empty()
    } else {
        let init = present_spans(caps.drop_last());
        match caps.last() {
            Some(s) => init.push(s),
            None => init,
        }
    }
}

/// Matches of one pattern added to `kept`, in order: each span is kept unless
/// it overlaps already tagged text or (with `check_kept`) a match kept before it.
pub open spec fn add_group(
    msg: Seq<char>,
    existing: Seq<(int, int)>,
    kept: Seq<TagMatchView>,
    spans: Seq<(int, int)>,
    color: Seq<char>,
    check_kept: bool,
) -> Seq<TagMatchView>
    decreases spans.len(),
{
    if spans.len() == 0 {
        kept
    } else {
        let k = add_group(msg, existing, kept, spans.drop_last(), color, check_kept);
        let s = spans.last();
        if !overlaps_any(s, existing) && (!check_kept || !overlaps_kept(s, k)) {
            k.push(TagMatchView { start: s.0, end: s.1, text: msg.subrange(s.0, s.1), color })
        } else {
            k
        }
    }
}

/// The views of a list of spans.
pub open spec fn spans_view(v: Seq<(usize, usize)>) -> Seq<(int, int)> {
    v.map_values(|s: (usize, usize)| (s.0 as int, s.1 as int))
}

fn to_char_spans(msg: &str, bs: &Vec<(usize, usize)>) -> (r: Vec<(usize, usize)>)
    ensures
        spans_view(r@) == char_spans(msg@, bs@),
        forall|k: int| 0 <= k < r@.len() ==> (#[trigger] r@[k]).0 <= r@[k].1 <= msg@.len(),
{
    let mut r: Vec<(usize, usize)> = Vec::new();
    let mut i: usize = 0;
    assert(bs@.take(0) =~= Seq::<(usize, usize)>::empty());
    assert(spans_view(r@) =~= Seq::<(int, int)>::empty());
    while i < bs.len()
        invariant
            i <= bs@.len(),
            spans_view(r@) == char_spans(msg@, bs@.take(i as int)),
            forall|k: int| 0 <= k < r@.len() ==> (#[trigger] r@[k]).0 <= r@[k].1 <= msg@.len(),
        decreases bs@.len() - i,
    {
        let (b0, b1) = bs[i];
        let ghost before = spans_view(r@);
        assert(bs@.take(i + 1).drop_last() =~= bs@.take(i as int));
        assert(bs@.take(i + 1).last() == bs@[i as int]);
        match (byte_prefix(msg, b0), byte_prefix(msg, b1)) {
            (Some(p), Some(q)) => {
                let a = chars_of(p).len();
                let b = chars_of(q).len();
                if a <= b {
                    r.push((a, b));
                    assert(spans_view(r@) =~= before.push((a as int, b as int)));
                }
            },
            _ => {},
        }
        i = i + 1;
    }
    assert(bs@.take(bs@.len() as int) =~= bs@);
    r
}

fn present_of(caps: &Vec<Option<(usize, usize)>>) -> (r: Vec<(usize, usize)>)
    ensures
        r@ == present_spans(caps@),
{
    let mut r: Vec<(usize, usize)> = Vec::new();
    let mut i: usize = 0;
    assert(caps@.take(0) =~= Seq::<Option<(usize, usize)>>::empty());
    while i < caps.len()
        invariant
            i <= caps@.len(),
            r@ == present_spans(caps@.take(i as int)),
        decreases caps@.len() - i,
    {
        assert(caps@.take(i + 1).drop_last() =~= caps@.take(i as int));
        assert(caps@.take(i + 1).last() == caps@[i as int]);
        if let Some(s) = caps[i] {
            r.push(s);
        }
        i = i + 1;
    }
    assert(caps@.take(caps@.len() as int) =~= caps@);
    r
}

fn overlaps_span_list(a: (usize, usize), spans: &Vec<(usize, usize)>) -> (r: bool)
    ensures
        r == overlaps_any((a.0 as int, a.1 as int), spans_view(spans@)),
{
    let mut i: usize = 0;
    while i < spans.len()
        invariant
            i <= spans@.len(),
            forall|j: int| 0 <= j < i ==> !span_overlaps((a.0 as int, a.1 as int), #[trigger] spans_view(spans@)[j]),
        decreases spans@.len() - i,
    {
        if a.0 < spans[i].1 && spans[i].0 < a.1 {
            assert(span_overlaps((a.0 as int, a.1 as int), spans_view(spans@)[i as int]));
            return true;
        }
        i = i + 1;
    }
    false
}

fn overlaps_match_list(a: (usize, usize), kept: &Vec<TagMatch>) -> (r: bool)
    ensures
        r == overlaps_kept((a.0 as int, a.1 as int), matches_view(kept@)),
{
    let mut i: usize = 0;
    while i < kept.len()
        invariant
            i <= kept@.len(),
            forall|j: int| 0 <= j < i ==> !span_overlaps((a.0 as int, a.1 as int), (#[trigger] matches_view(kept@)[j].start, matches_view(kept@)[j].end)),
        decreases kept@.len() - i,
    {
        if a.0 < kept[i].end && kept[i].start < a.1 {
            assert(span_overlaps((a.0 as int, a.1 as int), (matches_view(kept@)[i as int].start, matches_view(kept@)[i as int].end)));
            return true;
        }
        i = i + 1;
    }
    false
}

fn add_group_exec(
    kept: &mut Vec<TagMatch>,
    msg: &Vec<char>,
    existing: &Vec<(usize, usize)>,
    spans: &Vec<(usize, usize)>,
    color: &String,
    check_kept: bool,
)
    requires
        forall|k: int| 0 <= k < spans@.len() ==> (#[trigger] spans@[k]).0 <= spans@[k].1 <= msg@.len(),
    ensures
        matches_view(final(kept)@) == add_group(
            msg@,
            spans_view(existing@),
            matches_view(old(kept)@),
            spans_view(spans@),
            color@,
            check_kept,
        ),
{
    let ghost start = matches_view(kept@);
    let ghost ex = spans_view(existing@);
    let mut i: usize = 0;
    assert(spans_view(spans@).take(0) =~= Seq::<(int, int)>::empty());
    while i < spans.len()
        invariant
            i <= spans@.len(),
            ex == spans_view(existing@),
            forall|k: int| 0 <= k < spans@.len() ==> (#[trigger] spans@[k]).0 <= spans@[k].1 <= msg@.len(),
            matches_view(kept@) == add_group(msg@, ex, start, spans_view(spans@).take(i as int), color@, check_kept),
        decreases spans@.len() - i,
    {
        let s = spans[i];
        let ghost sv = spans_view(spans@);
        let ghost before = matches_view(kept@);
        assert(sv.take(i + 1).drop_last() =~= sv.take(i as int));
        assert(sv.take(i + 1).last() == (s.0 as int, s.1 as int));
        let blocked = overlaps_span_list(s, existing) || (check_kept && overlaps_match_list(s, kept));
        if !blocked {
            let text = slice_chars(msg, s.0, s.1);
            kept.push(TagMatch { start: s.0, end: s.1, text, color: color.clone() });
            assert(matches_view(kept@) =~= before.push(TagMatchView { start: s.0 as int, end: s.1 as int, text: msg@.subrange(s.0 as int, s.1 as int), color: color@ }));
        }
        i = i + 1;
    }
    assert(spans_view(spans@).take(spans@.len() as int) =~= spans_view(spans@));
}

/// The character spans of the matches of `pattern` in `msg` (none when it does not compile).
pub open spec fn pattern_spans(msg: Seq<char>, pattern: Seq<char>) -> Seq<(int, int)> {
    match spec_regex_find(pattern, msg) {
        Some(bs) => char_spans(msg, bs),
        None => Seq::empty(),
    }
}

/// The character spans of the paths in `msg` (capture group 1 of the path pattern).
pub open spec fn path_spans(msg: Seq<char>) -> Seq<(int, int)> {
    match spec_regex_group(PATH_PATTERN@, msg, 1) {
        Some(caps) => char_spans(msg, present_spans(caps)),
        None => Seq::empty(),
    }
}

/// The case-insensitive whole-word pattern of a keyword.
pub open spec fn keyword_pattern(kw: Seq<char>) -> Seq<char> {
    "(?i)\\b"@ + spec_regex_escape(kw) + "\\b"@
}

/// Keyword matches added in the order of the keyword table.
pub open spec fn keyword_matches(
    msg: Seq<char>,
    existing: Seq<(int, int)>,
    kept: Seq<TagMatchView>,
    kws: Seq<(Seq<char>, Seq<char>)>,
) -> Seq<TagMatchView>
    decreases kws.len(),
{
    if kws.len() == 0 {
        kept
    } else {
        let k = keyword_matches(msg, existing, kept, kws.drop_last());
        let (kw, color) = kws.last();
        add_group(msg, existing, k, pattern_spans(msg, keyword_pattern(kw)), color, true)
    }
}

/// Every piece of `msg` to tag, in priority order: URLs, paths, quoted
/// strings, numbers, then keywords; nothing inside already tagged text, and
/// after URLs nothing overlapping an earlier piece.
pub open spec fn spec_highlight_matches(msg: Seq<char>, cfg: HighlightConfig) -> Seq<TagMatchView> {
    let existing = pattern_spans(msg, EXISTING_TAG_PATTERN@);
    let p = cfg.patterns@;
    let k1 = match p.urls {
        Some(c) => add_group(msg, existing, Seq::empty(), pattern_spans(msg, URL_PATTERN@), c, false),
        None => Seq::empty(),
    };
    let k2 = match p.paths {
        Some(c) => add_group(msg, existing, k1, path_spans(msg), c, true),
        None => k1,
    };
    let k3 = match p.quoted {
        Some(c) => add_group(msg, existing, k2, pattern_spans(msg, QUOTED_PATTERN@), c, true),
        None => k2,
    };
    let k4 = match p.numbers {
        Some(c) => add_group(msg, existing, k3, pattern_spans(msg, NUMBER_PATTERN@), c, true),
        None => k3,
    };
    keyword_matches(msg, existing, k4, cfg.keywords.pairs())
}

/// `s` with the piece of `m` replaced by `<color>text</color>`.
pub open spec fn wrap_at(s: Seq<char>, m: TagMatchView) -> Seq<char> {
    if 0 <= m.start <= m.end <= s.len() {
        s.subrange(0, m.start) + "<"@ + m.color + ">"@ + m.text + "</"@ + m.color + ">"@ + s.subrange(
            m.end,
            s.len() as int,
        )
    } else {
        s
    }
}

/// The replacements applied in the given order.
pub open spec fn wrap_all(s: Seq<char>, ms: Seq<TagMatchView>, order: Seq<int>) -> Seq<char>
    decreases order.len(),
{
    if order.len() == 0 {
        s
    } else {
        wrap_at(wrap_all(s, ms, order.drop_last()), ms[order.last()])
    }
}

/// The start offsets of the matches.
pub open spec fn match_starts(ms: Seq<TagMatchView>) -> Seq<u64> {
    ms.map_values(|m: TagMatchView| m.start as u64)
}

/// The message with its highlights tagged: unchanged when highlighting is off
/// or the message is empty, else every match wrapped, the rightmost first.
pub open spec fn spec_inject_tags(msg: Seq<char>, cfg: HighlightConfig) -> Seq<char> {
    if !cfg.enabled || msg.len() == 0 {
        msg
    } else {
        let ms = spec_highlight_matches(msg, cfg);
        wrap_all(msg, ms, oldest_first(match_starts(ms)))
    }
}

fn spans_for(msg: &str, pattern: &str) -> (r: Vec<(usize, usize)>)
    ensures
        spans_view(r@) == pattern_spans(msg@, pattern@),
        forall|k: int| 0 <= k < r@.len() ==> (#[trigger] r@[k]).0 <= r@[k].1 <= msg@.len(),
{
    match regex_find(pattern, msg) {
        Some(bs) => to_char_spans(msg, &bs),
        None => {
            let r: Vec<(usize, usize)> = Vec::new();
            assert(spans_view(r@) =~= Seq::<(int, int)>::empty());
            r
        },
    }
}

fn path_spans_for(msg: &str) -> (r: Vec<(usize, usize)>)
    ensures
        spans_view(r@) == path_spans(msg@),
        forall|k: int| 0 <= k < r@.len() ==> (#[trigger] r@[k]).0 <= r@[k].1 <= msg@.len(),
{
    match regex_group(PATH_PATTERN, msg, 1) {
        Some(caps) => {
            let bs = present_of(&caps);
            to_char_spans(msg, &bs)
        },
        None => {
            let r: Vec<(usize, usize)> = Vec::new();
            assert(spans_view(r@) =~= Seq::<(int, int)>::empty());
            r
        },
    }
}

fn keyword_pattern_of(kw: &str) -> (r: String)
    ensures
        r@ == keyword_pattern(kw@),
{
    let e = regex_escape(kw);
    let mut v: Vec<char> = Vec::new();
    push_str(&mut v, "(?i)\\b");
    push_str(&mut v, e.as_str());
    push_str(&mut v, "\\b");
    string_of(&v)
}

/// The pieces of a message to tag, in priority order.
pub fn highlight_matches(msg: &str, config: &HighlightConfig) -> (r: Vec<TagMatch>)
    ensures
        matches_view(r@) == spec_highlight_matches(msg@, *config),
{
    let mv = chars_of(msg);
    let existing = spans_for(msg, EXISTING_TAG_PATTERN);
    let mut kept: Vec<TagMatch> = Vec::new();
    assert(matches_view(kept@) =~= Seq::<TagMatchView>::empty());
    if let Some(c) = &config.patterns.urls {
        let spans = spans_for(msg, URL_PATTERN);
        add_group_exec(&mut kept, &mv, &existing, &spans, c, false);
    }
    if let Some(c) = &config.patterns.paths {
        let spans = path_spans_for(msg);
        add_group_exec(&mut kept, &mv, &existing, &spans, c, true);
    }
    if let Some(c) = &config.patterns.quoted {
        let spans = spans_for(msg, QUOTED_PATTERN);
        add_group_exec(&mut kept, &mv, &existing, &spans, c, true);
    }
    if let Some(c) = &config.patterns.numbers {
        let spans = spans_for(msg, NUMBER_PATTERN);
        add_group_exec(&mut kept, &mv, &existing, &spans, c, true);
    }
    let kws = &config.keywords;
    let ghost ps = kws.pairs();
    let ghost k4 = matches_view(kept@);
    let ghost ex = spans_view(existing@);
    let mut i: usize = 0;
    assert(ps.take(0) =~= Seq::<(Seq<char>, Seq<char>)>::empty());
    while i < kws.len()
        invariant
            ps == kws.pairs(),
            kws == &config.keywords,
            ex == spans_view(existing@),
            mv@ == msg@,
            i <= ps.len(),
            matches_view(kept@) == keyword_matches(msg@, ex, k4, ps.take(i as int)),
        decreases ps.len() - i,
    {
        let kw = kws.key_at(i);
        let color = kws.value_at(i);
        let pattern = keyword_pattern_of(kw.as_str());
        let spans = spans_for(msg, pattern.as_str());
        proof {
            assert(ps.take(i + 1).drop_last() =~= ps.take(i as int));
            assert(ps.take(i + 1).last() == ps[i as int]);
        }
        add_group_exec(&mut kept, &mv, &existing, &spans, color, true);
        i = i + 1;
    }
    assert(ps.take(ps.len() as int) =~= ps);
    kept
}

fn wrap_at_exec(s: &Vec<char>, m: &TagMatch) -> (r: Vec<char>)
    ensures
        r@ == wrap_at(s@, m@),
{
    if m.start <= m.end && m.end <= s.len() {
        let mut out = slice_chars(s, 0, m.start);
        push_str(&mut out, "<");
        push_str(&mut out, m.color.as_str());
        push_str(&mut out, ">");
        push_chars(&mut out, &m.text);
        push_str(&mut out, "</");
        push_str(&mut out, m.color.as_str());
        push_str(&mut out, ">");
        let tail = slice_chars(s, m.end, s.len());
        push_chars(&mut out, &tail);
        assert(out@ =~= wrap_at(s@, m@));
        out
    } else {
        crate::text::copy_chars(s)
    }
}

/// Wraps the URLs, paths, quoted strings, numbers and keywords of a message in
/// color tags, as the highlight settings ask.
pub fn inject_tags(msg: &str, config: &HighlightConfig) -> (r: String)
    ensures
        r@ == spec_inject_tags(msg@, *config),
{
    if !config.enabled || msg.is_empty() {
        return crate::text::owned(msg);
    }
    let ms = highlight_matches(msg, config);
    let ghost mv = matches_view(ms@);
    let mut starts: Vec<u64> = Vec::new();
    let mut j: usize = 0;
    while j < ms.len()
        invariant
            j <= ms@.len(),
            mv == matches_view(ms@),
            starts@ == match_starts(mv).take(j as int),
        decreases ms@.len() - j,
    {
        starts.push(ms[j].start as u64);
        j = j + 1;
        assert(starts@ =~= match_starts(mv).take(j as int));
    }
    assert(starts@ =~= match_starts(mv));
    let order = oldest_first_order(&starts);
    let mut out = chars_of(msg);
    let mut k: usize = 0;
    assert(crate::cleanup::plan::idx_view(order@).take(0) =~= Seq::<int>::empty());
    proof {
        crate::cleanup::order::lemma_oldest_first(starts@);
    }
    while k < order.len()
        invariant
            k <= order@.len(),
            order@.len() == ms@.len(),
            mv == matches_view(ms@),
            starts@ == match_starts(mv),
            forall|q: int| 0 <= q < ms@.len() ==> order@[q] as int == oldest_first(starts@)[q],
            forall|q: int| 0 <= q < ms@.len() ==> 0 <= #[trigger] oldest_first(starts@)[q] < ms@.len(),
            out@ == wrap_all(msg@, mv, oldest_first(starts@).take(k as int)),
        decreases order@.len() - k,
    {
        let idx = order[k];
        proof {
            let o = oldest_first(starts@);
            assert(o.take(k + 1).drop_last() =~= o.take(k as int));
            assert(o.take(k + 1).last() == idx as int);
            assert(mv[idx as int] == ms@[idx as int]@);
        }
        out = wrap_at_exec(&out, &ms[idx]);
        k = k + 1;
    }
    proof {
        crate::cleanup::order::lemma_oldest_first(starts@);
        assert(oldest_first(starts@).take(ms@.len() as int) =~= oldest_first(starts@));
    }
    string_of(&out)
}

// ---------------------------------------------------------------------------
// Stripping the tags again
// ---------------------------------------------------------------------------

/// Where the first of `ps` starts, or the end of `msg` when there is none.
pub open spec fn first_start(msg: Seq<char>, ps: Seq<TagMatchView>) -> int {
    if ps.len() > 0 {
        ps[0].start
    } else {
        msg.len() as int
    }
}

/// The pieces `ps` in their tags, each followed by the text of `msg` up to the next.
pub open spec fn tagged_blocks(msg: Seq<char>, ps: Seq<TagMatchView>) -> Seq<char>
    decreases ps.len(),
{
    if ps.len() == 0 {
        Seq::empty()
    } else {
        tag_block(ps[0].color, ps[0].text) + msg.subrange(ps[0].end, first_start(msg, ps.drop_first()))
            + tagged_blocks(msg, ps.drop_first())
    }
}

/// `msg` with the pieces `ps` (left to right) in their tags.
pub open spec fn tagged_text(msg: Seq<char>, ps: Seq<TagMatchView>) -> Seq<char> {
    msg.subrange(0, first_start(msg, ps)) + tagged_blocks(msg, ps)
}

/// A piece that can be tagged and read back: non-empty, inside `msg`, its text
/// the slice of `msg` it covers, and a tag name that reads back.
pub open spec fn piece_of(msg: Seq<char>, m: TagMatchView) -> bool {
    &&& 0 <= m.start < m.end <= msg.len()
    &&& m.text == msg.subrange(m.start, m.end)
    &&& plain_tag_name(m.color)
}

/// Pieces of `msg` from left to right, none reaching into the next.
pub open spec fn pieces_in_order(msg: Seq<char>, ps: Seq<TagMatchView>) -> bool {
    &&& forall|k: int| 0 <= k < ps.len() ==> piece_of(msg, #[trigger] ps[k])
    &&& forall|a: int, b: int| 0 <= a < b < ps.len() ==> #[trigger] ps[a].end <= #[trigger] ps[b].start
}

proof fn lemma_plain_one(x: SegmentView)
    ensures
        spec_plain_all(seq![x]) == seg_text(x),
{
    assert(seq![x].drop_last() =~= Seq::<SegmentView>::empty());
    assert(spec_plain_all(Seq::<SegmentView>::empty()) == Seq::<char>::empty());
    assert(Seq::<char>::empty() + seg_text(x) =~= seg_text(x));
}

proof fn lemma_no_bracket_slice(msg: Seq<char>, a: int, b: int)
    requires
        !msg.contains('<'),
        0 <= a <= b <= msg.len(),
    ensures
        !msg.subrange(a, b).contains('<'),
{
    if msg.subrange(a, b).contains('<') {
        let x = choose|x: int| 0 <= x < b - a && msg.subrange(a, b)[x] == '<';
        assert(msg[a + x] == '<');
    }
}

/// Reading back the tagged pieces from position `i` of `m` gives the text of
/// `msg` from the first piece on.
proof fn lemma_parse_tagged_blocks(m: Seq<char>, i: int, msg: Seq<char>, ps: Seq<TagMatchView>)
    requires
        !msg.contains('<'),
        pieces_in_order(msg, ps),
        0 <= i <= m.len(),
        m.subrange(i, m.len() as int) == tagged_blocks(msg, ps),
    ensures
        spec_plain_all(parse_from(m, i)) == msg.subrange(first_start(msg, ps), msg.len() as int),
    decreases ps.len(),
{
    if ps.len() == 0 {
        assert(m.subrange(i, m.len() as int).len() == 0);
        assert(parse_from(m, i) == Seq::<SegmentView>::empty());
        assert(msg.subrange(msg.len() as int, msg.len() as int) =~= Seq::<char>::empty());
    } else {
        let p = ps[0];
        let rest = ps.drop_first();
        assert(piece_of(msg, ps[0]));
        assert(pieces_in_order(msg, rest)) by {
            assert forall|k: int| 0 <= k < rest.len() implies piece_of(msg, #[trigger] rest[k]) by {
                assert(rest[k] == ps[k + 1]);
            }
            assert forall|a: int, b: int| 0 <= a < b < rest.len() implies #[trigger] rest[a].end
                <= #[trigger] rest[b].start by {
                assert(rest[a] == ps[a + 1] && rest[b] == ps[b + 1]);
            }
        }
        let fs = first_start(msg, rest);
        assert(p.end <= fs <= msg.len()) by {
            if rest.len() > 0 {
                assert(rest[0] == ps[1]);
                assert(ps[0].end <= ps[1].start);
                assert(piece_of(msg, ps[1]));
            }
        }
        let tb = tag_block(p.color, p.text);
        let gap = msg.subrange(p.end, fs);
        let tail = tagged_blocks(msg, rest);
        assert(tagged_blocks(msg, ps) == tb + gap + tail);
        let j = i + tb.len();
        let g = j + gap.len();
        assert(m.len() - i == tb.len() + gap.len() + tail.len()) by {
            assert(m.subrange(i, m.len() as int).len() == (tb + gap + tail).len());
        }
        assert(m.subrange(i, j) =~= tb) by {
            assert forall|x: int| 0 <= x < tb.len() implies m.subrange(i, j)[x] == tb[x] by {
                assert(m.subrange(i, m.len() as int)[x] == (tb + gap + tail)[x]);
            }
        }
        lemma_no_bracket_slice(msg, p.start, p.end);
        lemma_no_bracket_slice(msg, p.end, fs);
        lemma_parse_tag_block(m, i, p.color, p.text);
        assert(m.subrange(g, m.len() as int) =~= tail) by {
            assert forall|x: int| 0 <= x < tail.len() implies m.subrange(g, m.len() as int)[x]
                == tail[x] by {
                assert(m.subrange(i, m.len() as int)[g - i + x] == (tb + gap + tail)[g - i + x]);
            }
        }
        lemma_parse_tagged_blocks(m, g, msg, rest);
        lemma_styled_text(p.color, p.text);
        if gap.len() > 0 {
            assert(m.subrange(j, g) =~= gap) by {
                assert forall|x: int| 0 <= x < gap.len() implies m.subrange(j, g)[x] == gap[x] by {
                    assert(m.subrange(i, m.len() as int)[j - i + x] == (tb + gap + tail)[j - i + x]);
                }
            }
            assert(g == m.len() || m[g] == '<') by {
                if g < m.len() {
                    assert(m[g] == m.subrange(i, m.len() as int)[g - i]);
                    assert(tail.len() > 0);
                    assert(rest.len() > 0);
                    assert(tail[0] == '<') by {
                        reveal_strlit("<");
                    }
                }
            }
            lemma_parse_plain_run(m, j, gap);
            let s1 = seq![styled(p.color, p.text)];
            let s2 = seq![SegmentView::Plain(gap)];
            let s3 = parse_from(m, g);
            assert(parse_from(m, i) == s1 + (s2 + s3));
            lemma_plain_all_concat(s1, s2 + s3);
            lemma_plain_all_concat(s2, s3);
            lemma_plain_one(styled(p.color, p.text));
            lemma_plain_one(SegmentView::Plain(gap));
        } else {
            assert(j == g);
            let s1 = seq![styled(p.color, p.text)];
            let s3 = parse_from(m, g);
            lemma_plain_all_concat(s1, s3);
            lemma_plain_one(styled(p.color, p.text));
        }
        assert(msg.subrange(p.start, msg.len() as int) =~= p.text + gap + msg.subrange(
            fs,
            msg.len() as int,
        ));
    }
}

/// Reading back `msg` with its pieces tagged, and dropping the tags, gives `msg`.
proof fn lemma_strip_tagged_text(msg: Seq<char>, ps: Seq<TagMatchView>)
    requires
        !msg.contains('<'),
        pieces_in_order(msg, ps),
    ensures
        spec_plain_all(spec_parse(tagged_text(msg, ps))) == msg,
{
    let m = tagged_text(msg, ps);
    let fs = first_start(msg, ps);
    assert(0 <= fs <= msg.len()) by {
        if ps.len() > 0 {
            assert(piece_of(msg, ps[0]));
        }
    }
    let pre = msg.subrange(0, fs);
    let blocks = tagged_blocks(msg, ps);
    assert(m.subrange(fs, m.len() as int) =~= blocks);
    lemma_parse_tagged_blocks(m, fs, msg, ps);
    if fs > 0 {
        lemma_no_bracket_slice(msg, 0, fs);
        assert(m.subrange(0, fs) =~= pre);
        assert(fs == m.len() || m[fs] == '<') by {
            if fs < m.len() {
                assert(ps.len() > 0);
                assert(m[fs] == blocks[0]);
                reveal_strlit("<");
            }
        }
        lemma_parse_plain_run(m, 0, pre);
        let s2 = seq![SegmentView::Plain(pre)];
        lemma_plain_all_concat(s2, parse_from(m, fs));
        lemma_plain_one(SegmentView::Plain(pre));
    }
    assert(pre + msg.subrange(fs, msg.len() as int) =~= msg);
}

/// Replacing the slice `a..e` of `x + y` (inside `x`) by `t`.
proof fn lemma_replace_in_front(x: Seq<char>, y: Seq<char>, a: int, e: int, t: Seq<char>)
    requires
        0 <= a <= e <= x.len(),
    ensures
        (x + y).subrange(0, a) + t + (x + y).subrange(e, (x + y).len() as int) == x.subrange(0, a)
            + t + (x.subrange(e, x.len() as int) + y),
{
    assert((x + y).subrange(0, a) =~= x.subrange(0, a));
    assert((x + y).subrange(e, (x + y).len() as int) =~= x.subrange(e, x.len() as int) + y);
}

/// Tagging one more piece in front of the pieces already tagged.
#[verifier::rlimit(30)]
proof fn lemma_wrap_in_front(msg: Seq<char>, p: TagMatchView, rest: Seq<TagMatchView>)
    requires
        piece_of(msg, p),
        p.end <= first_start(msg, rest) <= msg.len(),
    ensures
        wrap_at(tagged_text(msg, rest), p) == tagged_text(msg, seq![p] + rest),
{
    let fs = first_start(msg, rest);
    let pre = msg.subrange(0, fs);
    let b = tagged_blocks(msg, rest);
    let w = pre + b;
    let t = tag_block(p.color, p.text);
    let both = seq![p] + rest;
    assert(both.drop_first() =~= rest);
    assert(both[0] == p);
    assert(first_start(msg, both) == p.start);
    let opened = "<"@ + p.color + ">"@ + p.text + "</"@ + p.color + ">"@;
    assert(opened =~= t);
    assert(wrap_at(w, p) == w.subrange(0, p.start) + opened + w.subrange(p.end, w.len() as int)) by {
        let w0 = w.subrange(0, p.start);
        let w1 = w.subrange(p.end, w.len() as int);
        assert(w0 + "<"@ + p.color + ">"@ + p.text + "</"@ + p.color + ">"@ + w1 =~= w0 + opened + w1);
    }
    lemma_replace_in_front(pre, b, p.start, p.end, t);
    assert(pre.subrange(0, p.start) =~= msg.subrange(0, p.start));
    assert(pre.subrange(p.end, pre.len() as int) =~= msg.subrange(p.end, fs));
    assert(tagged_blocks(msg, both) == t + msg.subrange(p.end, fs) + b);
    assert(msg.subrange(0, p.start) + t + (msg.subrange(p.end, fs) + b) =~= msg.subrange(0, p.start)
        + (t + msg.subrange(p.end, fs) + b));
}

/// The first `k` pieces of `ms` taken in `order`, listed from the last taken to the first.
pub open spec fn taken_left_to_right(ms: Seq<TagMatchView>, order: Seq<int>, k: int) -> Seq<TagMatchView> {
    Seq::new(k as nat, |j: int| ms[order[k - 1 - j]])
}

/// Tagging the pieces one after another, each left of the ones before it,
/// gives the text with those pieces tagged.
proof fn lemma_wrap_taken(msg: Seq<char>, ms: Seq<TagMatchView>, order: Seq<int>, k: int)
    requires
        order.len() == ms.len(),
        0 <= k <= ms.len(),
        forall|q: int| 0 <= q < order.len() ==> 0 <= #[trigger] order[q] < ms.len(),
        forall|q: int| 0 <= q < ms.len() ==> piece_of(msg, #[trigger] ms[q]),
        forall|q1: int, q2: int|
            0 <= q1 < q2 < order.len() ==> #[trigger] ms[order[q2]].end <= #[trigger] ms[order[q1]].start,
    ensures
        wrap_all(msg, ms, order.take(k)) == tagged_text(msg, taken_left_to_right(ms, order, k)),
        pieces_in_order(msg, taken_left_to_right(ms, order, k)),
    decreases k,
{
    let ps = taken_left_to_right(ms, order, k);
    if k == 0 {
        assert(order.take(0) =~= Seq::<int>::empty());
        assert(ps =~= Seq::<TagMatchView>::empty());
        assert(msg.subrange(0, msg.len() as int) =~= msg);
        assert(tagged_text(msg, ps) =~= msg);
    } else {
        lemma_wrap_taken(msg, ms, order, k - 1);
        let prev = taken_left_to_right(ms, order, k - 1);
        let p = ms[order[k - 1]];
        assert(order.take(k).drop_last() =~= order.take(k - 1));
        assert(order.take(k).last() == order[k - 1]);
        assert(ps =~= seq![p] + prev);
        assert(piece_of(msg, p));
        assert(p.end <= first_start(msg, prev) <= msg.len()) by {
            if k - 1 > 0 {
                assert(prev[0] == ms[order[k - 2]]);
                assert(ms[order[k - 1]].end <= ms[order[k - 2]].start);
                assert(piece_of(msg, ms[order[k - 2]]));
            }
        }
        lemma_wrap_in_front(msg, p, prev);
        assert forall|a: int, b: int| 0 <= a < b < ps.len() implies #[trigger] ps[a].end
            <= #[trigger] ps[b].start by {
            assert(ps[a] == ms[order[k - 1 - a]]);
            assert(ps[b] == ms[order[k - 1 - b]]);
        }
        assert forall|q: int| 0 <= q < ps.len() implies piece_of(msg, #[trigger] ps[q]) by {
            assert(ps[q] == ms[order[k - 1 - q]]);
        }
    }
}

/// Pieces of a tag-free text that are non-empty and apart: tagging them
/// rightmost first, as `inject_tags` does, and then reading the result back
/// without its tags (as `strip_tags` does) gives the text back unchanged.
pub proof fn law_strip_undoes_tagging(msg: Seq<char>, ms: Seq<TagMatchView>)
    requires
        !msg.contains('<'),
        msg.len() <= u64::MAX,
        forall|q: int| 0 <= q < ms.len() ==> piece_of(msg, #[trigger] ms[q]),
        forall|a: int, b: int|
            0 <= a < ms.len() && 0 <= b < ms.len() && a != b ==> !span_overlaps(
                (#[trigger] ms[a].start, ms[a].end),
                (#[trigger] ms[b].start, ms[b].end),
            ),
    ensures
        spec_plain_all(spec_parse(wrap_all(msg, ms, oldest_first(match_starts(ms))))) == msg,
{
    let st = match_starts(ms);
    let o = oldest_first(st);
    let n = ms.len() as int;
    lemma_oldest_first(st);
    assert forall|q1: int, q2: int| 0 <= q1 < q2 < o.len() implies #[trigger] ms[o[q2]].end
        <= #[trigger] ms[o[q1]].start by {
        let a = o[q1];
        let b = o[q2];
        assert(rank_desc(st, a) == q1 && rank_desc(st, b) == q2);
        assert(a != b);
        assert(piece_of(msg, ms[a]) && piece_of(msg, ms[b]));
        assert(st[a] == ms[a].start as u64 && st[b] == ms[b].start as u64);
        assert(!span_overlaps((ms[a].start, ms[a].end), (ms[b].start, ms[b].end)));
        if ms[a].start <= ms[b].start {
            if ms[a].start == ms[b].start {
                assert(span_overlaps((ms[a].start, ms[a].end), (ms[b].start, ms[b].end)));
            } else {
                assert(st[a] < st[b]);
                lemma_rank_desc_before(st, b, a);
            }
        }
    }
    lemma_wrap_taken(msg, ms, o, n);
    assert(o.take(n) =~= o);
    lemma_strip_tagged_text(msg, taken_left_to_right(ms, o, n));
}

/// Character spans inside `msg`, each running forward.
pub open spec fn spans_inside(msg: Seq<char>, cs: Seq<(int, int)>) -> bool {
    forall|k: int| 0 <= k < cs.len() ==> 0 <= (#[trigger] cs[k]).0 <= cs[k].1 <= msg.len()
}

/// Character spans one after another, none reaching into a later one.
pub open spec fn spans_in_order(cs: Seq<(int, int)>) -> bool {
    forall|a: int, b: int| 0 <= a < b < cs.len() ==> (#[trigger] cs[a]).1 <= (#[trigger] cs[b]).0
}

/// Kept pieces inside `msg`, each the slice it covers, under a tag name that reads back.
pub open spec fn kept_ok(msg: Seq<char>, ks: Seq<TagMatchView>) -> bool {
    forall|k: int|
        0 <= k < ks.len() ==> {
            &&& 0 <= (#[trigger] ks[k]).start <= ks[k].end <= msg.len()
            &&& ks[k].text == msg.subrange(ks[k].start, ks[k].end)
            &&& plain_tag_name(ks[k].color)
        }
}

/// No two kept pieces share a position.
pub open spec fn kept_apart(ks: Seq<TagMatchView>) -> bool {
    forall|a: int, b: int|
        0 <= a < ks.len() && 0 <= b < ks.len() && a != b ==> !span_overlaps(
            (#[trigger] ks[a].start, ks[a].end),
            (#[trigger] ks[b].start, ks[b].end),
        )
}

proof fn lemma_char_span(msg: Seq<char>, b: (usize, usize))
    ensures
        char_span(msg, b) matches Some(s) ==> 0 <= s.0 <= s.1 <= msg.len() && crate::text::char_index_at_byte(
            msg,
            b.0 as nat,
        ) == Some(s.0 as nat) && crate::text::char_index_at_byte(msg, b.1 as nat) == Some(s.1 as nat),
{
    let c0 = crate::text::char_index_at_byte(msg, b.0 as nat);
    let c1 = crate::text::char_index_at_byte(msg, b.1 as nat);
    if c0 is Some {
        crate::text::lemma_char_index_order(msg, b.0 as nat, b.0 as nat);
    }
    if c1 is Some {
        crate::text::lemma_char_index_order(msg, b.1 as nat, b.1 as nat);
    }
}

proof fn lemma_char_spans_inside(msg: Seq<char>, bs: Seq<(usize, usize)>)
    ensures
        spans_inside(msg, char_spans(msg, bs)),
    decreases bs.len(),
{
    if bs.len() > 0 {
        lemma_char_spans_inside(msg, bs.drop_last());
        lemma_char_span(msg, bs.last());
    }
}

proof fn lemma_char_spans_end_bound(msg: Seq<char>, bs: Seq<(usize, usize)>, y: nat, cy: nat)
    requires
        forall|i: int| 0 <= i < bs.len() ==> (#[trigger] bs[i]).1 <= y,
        crate::text::char_index_at_byte(msg, y) == Some(cy),
    ensures
        forall|k: int| 0 <= k < char_spans(msg, bs).len() ==> (#[trigger] char_spans(msg, bs)[k]).1 <= cy,
    decreases bs.len(),
{
    if bs.len() > 0 {
        let init = bs.drop_last();
        assert forall|i: int| 0 <= i < init.len() implies (#[trigger] init[i]).1 <= y by {
            assert(init[i] == bs[i]);
        }
        lemma_char_spans_end_bound(msg, init, y, cy);
        lemma_char_span(msg, bs.last());
        match char_span(msg, bs.last()) {
            Some(sp) => {
                assert(bs[bs.len() - 1].1 <= y);
                crate::text::lemma_char_index_order(msg, bs.last().1 as nat, y);
                let cs = char_spans(msg, bs);
                let ci = char_spans(msg, init);
                assert(cs == ci.push(sp));
                assert forall|k: int| 0 <= k < cs.len() implies (#[trigger] cs[k]).1 <= cy by {
                    if k < ci.len() {
                        assert(cs[k] == ci[k]);
                    }
                }
            },
            None => {},
        }
    }
}

proof fn lemma_char_spans_in_order(msg: Seq<char>, bs: Seq<(usize, usize)>)
    requires
        byte_spans_in_order(bs),
    ensures
        spans_in_order(char_spans(msg, bs)),
    decreases bs.len(),
{
    if bs.len() > 0 {
        let init = bs.drop_last();
        assert(byte_spans_in_order(init)) by {
            assert forall|k: int| 0 <= k < init.len() implies (#[trigger] init[k]).0 <= init[k].1 by {
                assert(init[k] == bs[k]);
            }
            assert forall|a: int, b: int| 0 <= a < b < init.len() implies (#[trigger] init[a]).1
                <= (#[trigger] init[b]).0 by {
                assert(init[a] == bs[a] && init[b] == bs[b]);
            }
        }
        lemma_char_spans_in_order(msg, init);
        lemma_char_span(msg, bs.last());
        match char_span(msg, bs.last()) {
            Some(sp) => {
                let y = bs.last().0 as nat;
                assert forall|i: int| 0 <= i < init.len() implies (#[trigger] init[i]).1 <= y by {
                    assert(init[i] == bs[i]);
                    assert(bs[i].1 <= bs[bs.len() - 1].0);
                }
                lemma_char_spans_end_bound(msg, init, y, sp.0 as nat);
                let cs = char_spans(msg, bs);
                let ci = char_spans(msg, init);
                assert(cs == ci.push(sp));
                assert forall|a: int, b: int| 0 <= a < b < cs.len() implies (#[trigger] cs[a]).1
                    <= (#[trigger] cs[b]).0 by {
                    if b == cs.len() - 1 {
                        assert(cs[a] == ci[a]);
                    } else {
                        assert(cs[a] == ci[a] && cs[b] == ci[b]);
                    }
                }
            },
            None => {},
        }
    }
}

proof fn lemma_add_group_end_bound(
    msg: Seq<char>,
    existing: Seq<(int, int)>,
    kept: Seq<TagMatchView>,
    spans: Seq<(int, int)>,
    color: Seq<char>,
    check_kept: bool,
    y: int,
)
    requires
        forall|k: int| 0 <= k < kept.len() ==> (#[trigger] kept[k]).end <= y,
        forall|i: int| 0 <= i < spans.len() ==> (#[trigger] spans[i]).1 <= y,
    ensures
        forall|k: int|
            0 <= k < add_group(msg, existing, kept, spans, color, check_kept).len() ==> (
            #[trigger] add_group(msg, existing, kept, spans, color, check_kept)[k]).end <= y,
    decreases spans.len(),
{
    if spans.len() > 0 {
        let init = spans.drop_last();
        assert forall|i: int| 0 <= i < init.len() implies (#[trigger] init[i]).1 <= y by {
            assert(init[i] == spans[i]);
        }
        lemma_add_group_end_bound(msg, existing, kept, init, color, check_kept, y);
        assert(spans[spans.len() - 1].1 <= y);
        let k = add_group(msg, existing, kept, init, color, check_kept);
        let r = add_group(msg, existing, kept, spans, color, check_kept);
        assert forall|q: int| 0 <= q < r.len() implies (#[trigger] r[q]).end <= y by {
            if q < k.len() {
                assert(r[q] == k[q]);
            }
        }
    }
}

proof fn lemma_add_group_ok(
    msg: Seq<char>,
    existing: Seq<(int, int)>,
    kept: Seq<TagMatchView>,
    spans: Seq<(int, int)>,
    color: Seq<char>,
    check_kept: bool,
)
    requires
        kept_ok(msg, kept),
        kept_apart(kept),
        plain_tag_name(color),
        spans_inside(msg, spans),
        check_kept || (kept.len() == 0 && spans_in_order(spans)),
    ensures
        kept_ok(msg, add_group(msg, existing, kept, spans, color, check_kept)),
        kept_apart(add_group(msg, existing, kept, spans, color, check_kept)),
    decreases spans.len(),
{
    if spans.len() > 0 {
        let init = spans.drop_last();
        assert(spans_inside(msg, init)) by {
            assert forall|k: int| 0 <= k < init.len() implies 0 <= (#[trigger] init[k]).0 <= init[k].1
                <= msg.len() by {
                assert(init[k] == spans[k]);
            }
        }
        if !check_kept {
            assert forall|a: int, b: int| 0 <= a < b < init.len() implies (#[trigger] init[a]).1
                <= (#[trigger] init[b]).0 by {
                assert(init[a] == spans[a] && init[b] == spans[b]);
            }
        }
        lemma_add_group_ok(msg, existing, kept, init, color, check_kept);
        let k = add_group(msg, existing, kept, init, color, check_kept);
        let sp = spans.last();
        assert(0 <= sp.0 <= sp.1 <= msg.len()) by {
            assert(sp == spans[spans.len() - 1]);
        }
        if !overlaps_any(sp, existing) && (!check_kept || !overlaps_kept(sp, k)) {
            let x = TagMatchView { start: sp.0, end: sp.1, text: msg.subrange(sp.0, sp.1), color };
            let r = k.push(x);
            assert(add_group(msg, existing, kept, spans, color, check_kept) == r);
            if !check_kept {
                assert forall|i: int| 0 <= i < init.len() implies (#[trigger] init[i]).1 <= sp.0 by {
                    assert(init[i] == spans[i]);
                }
                lemma_add_group_end_bound(msg, existing, kept, init, color, check_kept, sp.0);
            }
            assert forall|a: int, b: int|
                0 <= a < r.len() && 0 <= b < r.len() && a != b implies !span_overlaps(
                (#[trigger] r[a].start, r[a].end),
                (#[trigger] r[b].start, r[b].end),
            ) by {
                if a < k.len() && b < k.len() {
                    assert(r[a] == k[a] && r[b] == k[b]);
                } else if a == k.len() {
                    assert(r[b] == k[b]);
                    if check_kept {
                        assert(!span_overlaps(sp, (k[b].start, k[b].end)));
                    }
                } else {
                    assert(r[a] == k[a]);
                    if check_kept {
                        assert(!span_overlaps(sp, (k[a].start, k[a].end)));
                    }
                }
            }
            assert forall|q: int| 0 <= q < r.len() implies {
                &&& 0 <= (#[trigger] r[q]).start <= r[q].end <= msg.len()
                &&& r[q].text == msg.subrange(r[q].start, r[q].end)
                &&& plain_tag_name(r[q].color)
            } by {
                if q < k.len() {
                    assert(r[q] == k[q]);
                }
            }
        }
    }
}

proof fn lemma_pattern_spans_inside(msg: Seq<char>, pattern: Seq<char>)
    ensures
        spans_inside(msg, pattern_spans(msg, pattern)),
{
    match spec_regex_find(pattern, msg) {
        Some(bs) => lemma_char_spans_inside(msg, bs),
        None => {},
    }
}

proof fn lemma_path_spans_inside(msg: Seq<char>)
    ensures
        spans_inside(msg, path_spans(msg)),
{
    match spec_regex_group(PATH_PATTERN@, msg, 1) {
        Some(caps) => lemma_char_spans_inside(msg, present_spans(caps)),
        None => {},
    }
}

proof fn lemma_keyword_matches_ok(
    msg: Seq<char>,
    existing: Seq<(int, int)>,
    kept: Seq<TagMatchView>,
    kws: Seq<(Seq<char>, Seq<char>)>,
)
    requires
        kept_ok(msg, kept),
        kept_apart(kept),
        forall|i: int| 0 <= i < kws.len() ==> plain_tag_name((#[trigger] kws[i]).1),
    ensures
        kept_ok(msg, keyword_matches(msg, existing, kept, kws)),
        kept_apart(keyword_matches(msg, existing, kept, kws)),
    decreases kws.len(),
{
    if kws.len() > 0 {
        let init = kws.drop_last();
        assert forall|i: int| 0 <= i < init.len() implies plain_tag_name((#[trigger] init[i]).1) by {
            assert(init[i] == kws[i]);
        }
        lemma_keyword_matches_ok(msg, existing, kept, init);
        let k = keyword_matches(msg, existing, kept, init);
        let (kw, color) = kws.last();
        assert(plain_tag_name(kws[kws.len() - 1].1));
        lemma_pattern_spans_inside(msg, keyword_pattern(kw));
        lemma_add_group_ok(msg, existing, k, pattern_spans(msg, keyword_pattern(kw)), color, true);
    }
}

/// Every color the highlight settings name reads back as a tag name.
pub open spec fn highlight_colors_plain(cfg: HighlightConfig) -> bool {
    let p = cfg.patterns@;
    &&& (p.urls matches Some(c) ==> plain_tag_name(c))
    &&& (p.paths matches Some(c) ==> plain_tag_name(c))
    &&& (p.quoted matches Some(c) ==> plain_tag_name(c))
    &&& (p.numbers matches Some(c) ==> plain_tag_name(c))
    &&& forall|i: int|
        0 <= i < cfg.keywords.pairs().len() ==> plain_tag_name((#[trigger] cfg.keywords.pairs()[i]).1)
}

proof fn lemma_highlight_matches_ok(msg: Seq<char>, cfg: HighlightConfig)
    requires
        highlight_colors_plain(cfg),
        spec_regex_find(URL_PATTERN@, msg) matches Some(bs) ==> byte_spans_in_order(bs),
    ensures
        kept_ok(msg, spec_highlight_matches(msg, cfg)),
        kept_apart(spec_highlight_matches(msg, cfg)),
{
    let existing = pattern_spans(msg, EXISTING_TAG_PATTERN@);
    let p = cfg.patterns@;
    let e = Seq::<TagMatchView>::empty();
    let k1 = match p.urls {
        Some(c) => add_group(msg, existing, e, pattern_spans(msg, URL_PATTERN@), c, false),
        None => e,
    };
    match p.urls {
        Some(c) => {
            lemma_pattern_spans_inside(msg, URL_PATTERN@);
            match spec_regex_find(URL_PATTERN@, msg) {
                Some(bs) => lemma_char_spans_in_order(msg, bs),
                None => {},
            }
            lemma_add_group_ok(msg, existing, e, pattern_spans(msg, URL_PATTERN@), c, false);
        },
        None => {},
    }
    let k2 = match p.paths {
        Some(c) => add_group(msg, existing, k1, path_spans(msg), c, true),
        None => k1,
    };
    match p.paths {
        Some(c) => {
            lemma_path_spans_inside(msg);
            lemma_add_group_ok(msg, existing, k1, path_spans(msg), c, true);
        },
        None => {},
    }
    let k3 = match p.quoted {
        Some(c) => add_group(msg, existing, k2, pattern_spans(msg, QUOTED_PATTERN@), c, true),
        None => k2,
    };
    match p.quoted {
        Some(c) => {
            lemma_pattern_spans_inside(msg, QUOTED_PATTERN@);
            lemma_add_group_ok(msg, existing, k2, pattern_spans(msg, QUOTED_PATTERN@), c, true);
        },
        None => {},
    }
    let k4 = match p.numbers {
        Some(c) => add_group(msg, existing, k3, pattern_spans(msg, NUMBER_PATTERN@), c, true),
        None => k3,
    };
    match p.numbers {
        Some(c) => {
            lemma_pattern_spans_inside(msg, NUMBER_PATTERN@);
            lemma_add_group_ok(msg, existing, k3, pattern_spans(msg, NUMBER_PATTERN@), c, true);
        },
        None => {},
    }
    lemma_keyword_matches_ok(msg, existing, k4, cfg.keywords.pairs());
}

/// Highlighting only wraps pieces of a message in color tags: for a message
/// without `<` and color names that read back as tag names, removing the style
/// tags (as `strip_tags` does) from what `inject_tags` returns gives the message
/// back, no character added, dropped or moved. This is stated for the case where
/// the patterns found no empty piece (regex semantics decides that and is not
/// stated here) and the links found come one after another, as the regex crate
/// documents for `find_iter`.
pub proof fn law_strip_injected_tags(msg: Seq<char>, cfg: HighlightConfig)
    requires
        !msg.contains('<'),
        msg.len() <= u64::MAX,
        highlight_colors_plain(cfg),
        forall|k: int|
            0 <= k < spec_highlight_matches(msg, cfg).len() ==> (#[trigger] spec_highlight_matches(
                msg,
                cfg,
            )[k]).start < spec_highlight_matches(msg, cfg)[k].end,
        spec_regex_find(URL_PATTERN@, msg) matches Some(bs) ==> byte_spans_in_order(bs),
    ensures
        spec_plain_all(spec_parse(spec_inject_tags(msg, cfg))) == msg,
{
    if !cfg.enabled || msg.len() == 0 {
        if msg.len() == 0 {
            assert(spec_parse(msg) == Seq::<SegmentView>::empty());
        } else {
            crate::fmt::style::law_untagged_text_is_plain(msg);
        }
    } else {
        let ms = spec_highlight_matches(msg, cfg);
        lemma_highlight_matches_ok(msg, cfg);
        assert forall|q: int| 0 <= q < ms.len() implies piece_of(msg, #[trigger] ms[q]) by {}
        law_strip_undoes_tagging(msg, ms);
    }
}

/// `a` is an initial part of `b`.
spec fn starts_list(a: Seq<TagMatchView>, b: Seq<TagMatchView>) -> bool {
    a.len() <= b.len() && forall|k: int| 0 <= k < a.len() ==> #[trigger] b[k] == a[k]
}

/// Adding a group only appends: the pieces kept from the first `j` spans stay
/// at the front of what the whole group keeps.
proof fn lemma_add_group_grows(
    msg: Seq<char>,
    existing: Seq<(int, int)>,
    kept: Seq<TagMatchView>,
    spans: Seq<(int, int)>,
    color: Seq<char>,
    check_kept: bool,
    j: int,
)
    requires
        0 <= j <= spans.len(),
    ensures
        starts_list(
            add_group(msg, existing, kept, spans.take(j), color, check_kept),
            add_group(msg, existing, kept, spans, color, check_kept),
        ),
    decreases spans.len(),
{
    if j == spans.len() {
        assert(spans.take(j) =~= spans);
    } else {
        let init = spans.drop_last();
        assert(init.take(j) =~= spans.take(j));
        lemma_add_group_grows(msg, existing, kept, init, color, check_kept, j);
    }
}

/// Whether piece `x` covers exactly one of `spans`.
spec fn covers_a_span(spans: Seq<(int, int)>, x: TagMatchView) -> bool {
    exists|j: int| 0 <= j < spans.len() && #[trigger] spans[j] == (x.start, x.end)
}

/// Every piece a group adds covers one of the group's spans.
proof fn lemma_add_group_origin(
    msg: Seq<char>,
    existing: Seq<(int, int)>,
    kept: Seq<TagMatchView>,
    spans: Seq<(int, int)>,
    color: Seq<char>,
    check_kept: bool,
)
    ensures
        starts_list(kept, add_group(msg, existing, kept, spans, color, check_kept)),
        forall|k: int|
            kept.len() <= k < add_group(msg, existing, kept, spans, color, check_kept).len()
                ==> covers_a_span(spans, #[trigger] add_group(msg, existing, kept, spans, color, check_kept)[k]),
    decreases spans.len(),
{
    if spans.len() > 0 {
        let init = spans.drop_last();
        lemma_add_group_origin(msg, existing, kept, init, color, check_kept);
        let a = add_group(msg, existing, kept, init, color, check_kept);
        let r = add_group(msg, existing, kept, spans, color, check_kept);
        assert forall|k: int| kept.len() <= k < r.len() implies covers_a_span(spans, #[trigger] r[k]) by {
            if k < a.len() {
                assert(r[k] == a[k]);
                assert(covers_a_span(init, a[k]));
                let j = choose|j: int| 0 <= j < init.len() && #[trigger] init[j] == (a[k].start, a[k].end);
                assert(spans[j] == init[j]);
            } else {
                assert(spans[spans.len() - 1] == (r[k].start, r[k].end));
            }
        }
        assert forall|k: int| 0 <= k < kept.len() implies #[trigger] r[k] == kept[k] by {
            assert(a[k] == kept[k]);
            if k < a.len() {
                assert(r[k] == a[k]);
            }
        }
    } else {
        assert(add_group(msg, existing, kept, spans, color, check_kept) == kept);
    }
}

/// Keyword matches only append to what was kept before them.
proof fn lemma_keyword_matches_grows(
    msg: Seq<char>,
    existing: Seq<(int, int)>,
    kept: Seq<TagMatchView>,
    kws: Seq<(Seq<char>, Seq<char>)>,
)
    ensures
        starts_list(kept, keyword_matches(msg, existing, kept, kws)),
    decreases kws.len(),
{
    if kws.len() > 0 {
        lemma_keyword_matches_grows(msg, existing, kept, kws.drop_last());
        let k = keyword_matches(msg, existing, kept, kws.drop_last());
        let (kw, color) = kws.last();
        lemma_add_group_origin(msg, existing, k, pattern_spans(msg, keyword_pattern(kw)), color, true);
    }
}

/// A quoted string that shares no position with a link, a path, text already
/// inside tags, or an earlier quoted string is tagged whole in the quoted
/// color, whatever numbers lie inside it: quoted strings are matched before
/// numbers, and later pieces never displace earlier ones.
pub proof fn law_quoted_before_numbers(msg: Seq<char>, cfg: HighlightConfig, i: int)
    requires
        cfg.patterns@.quoted is Some,
        0 <= i < pattern_spans(msg, QUOTED_PATTERN@).len(),
        !overlaps_any(pattern_spans(msg, QUOTED_PATTERN@)[i], pattern_spans(msg, EXISTING_TAG_PATTERN@)),
        !overlaps_any(pattern_spans(msg, QUOTED_PATTERN@)[i], pattern_spans(msg, URL_PATTERN@)),
        !overlaps_any(pattern_spans(msg, QUOTED_PATTERN@)[i], path_spans(msg)),
        !overlaps_any(
            pattern_spans(msg, QUOTED_PATTERN@)[i],
            pattern_spans(msg, QUOTED_PATTERN@).take(i),
        ),
    ensures
        spec_highlight_matches(msg, cfg).contains(
            TagMatchView {
                start: pattern_spans(msg, QUOTED_PATTERN@)[i].0,
                end: pattern_spans(msg, QUOTED_PATTERN@)[i].1,
                text: msg.subrange(
                    pattern_spans(msg, QUOTED_PATTERN@)[i].0,
                    pattern_spans(msg, QUOTED_PATTERN@)[i].1,
                ),
                color: cfg.patterns@.quoted.unwrap(),
            },
        ),
{
    let qs = pattern_spans(msg, QUOTED_PATTERN@);
    let q = qs[i];
    let existing = pattern_spans(msg, EXISTING_TAG_PATTERN@);
    let urls = pattern_spans(msg, URL_PATTERN@);
    let paths = path_spans(msg);
    let p = cfg.patterns@;
    let qc = p.quoted.unwrap();
    let view = TagMatchView { start: q.0, end: q.1, text: msg.subrange(q.0, q.1), color: qc };
    let e = Seq::<TagMatchView>::empty();
    let k1 = match p.urls {
        Some(c) => add_group(msg, existing, e, urls, c, false),
        None => e,
    };
    match p.urls {
        Some(c) => lemma_add_group_origin(msg, existing, e, urls, c, false),
        None => {},
    }
    assert forall|k: int| 0 <= k < k1.len() implies !span_overlaps(q, (#[trigger] k1[k].start, k1[k].end)) by {
        match p.urls {
            Some(c) => {
                assert(covers_a_span(urls, k1[k]));
                let j = choose|j: int| 0 <= j < urls.len() && #[trigger] urls[j] == (k1[k].start, k1[k].end);
                assert(!span_overlaps(q, urls[j]));
            },
            None => {},
        }
    }
    let k2 = match p.paths {
        Some(c) => add_group(msg, existing, k1, paths, c, true),
        None => k1,
    };
    match p.paths {
        Some(c) => lemma_add_group_origin(msg, existing, k1, paths, c, true),
        None => {},
    }
    assert forall|k: int| 0 <= k < k2.len() implies !span_overlaps(q, (#[trigger] k2[k].start, k2[k].end)) by {
        if k < k1.len() {
            assert(k2[k] == k1[k]);
        } else {
            match p.paths {
                Some(c) => {
                    assert(covers_a_span(paths, k2[k]));
                    let j = choose|j: int| 0 <= j < paths.len() && #[trigger] paths[j] == (k2[k].start, k2[k].end);
                    assert(!span_overlaps(q, paths[j]));
                },
                None => {},
            }
        }
    }
    let before = qs.take(i);
    let a = add_group(msg, existing, k2, before, qc, true);
    lemma_add_group_origin(msg, existing, k2, before, qc, true);
    assert(!overlaps_kept(q, a)) by {
        assert forall|k: int| 0 <= k < a.len() implies !span_overlaps(q, (#[trigger] a[k].start, a[k].end)) by {
            if k < k2.len() {
                assert(a[k] == k2[k]);
            } else {
                assert(covers_a_span(before, a[k]));
                let j = choose|j: int| 0 <= j < before.len() && #[trigger] before[j] == (a[k].start, a[k].end);
                assert(!span_overlaps(q, before[j]));
            }
        }
    }
    let upto = qs.take(i + 1);
    assert(upto.drop_last() =~= before);
    assert(upto.last() == q);
    let b = add_group(msg, existing, k2, upto, qc, true);
    assert(b == a.push(view));
    let k3 = add_group(msg, existing, k2, qs, qc, true);
    lemma_add_group_grows(msg, existing, k2, qs, qc, true, i + 1);
    assert(k3[a.len() as int] == view);
    let k4 = match p.numbers {
        Some(c) => add_group(msg, existing, k3, pattern_spans(msg, NUMBER_PATTERN@), c, true),
        None => k3,
    };
    match p.numbers {
        Some(c) => lemma_add_group_origin(msg, existing, k3, pattern_spans(msg, NUMBER_PATTERN@), c, true),
        None => {},
    }
    assert(k4[a.len() as int] == view);
    lemma_keyword_matches_grows(msg, existing, k4, cfg.keywords.pairs());
    let r = spec_highlight_matches(msg, cfg);
    assert(r == keyword_matches(msg, existing, k4, cfg.keywords.pairs()));
    assert(r[a.len() as int] == view);
}

} // verus!
