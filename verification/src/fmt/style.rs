//! Inline styling with XML-like tags (`<bold>`, `<red>`, `<#ff0000>`), parsed into
//! segments that render either with ANSI escapes or as plain text.
use crate::fmt::color::{
    hex2, hex_value, law_hex_round_trip, lemma_hex_form_digits, spec_fg_ansi, spec_from_hex, Color,
};
use crate::strmap::StrMap;
use crate::text::{
    chars_eq_str, chars_of, find_char, find_char_from, find_sub, find_sub_from, has_prefix,
    lemma_find_char_from, lemma_find_sub_from, occurs_at, push_chars, push_str, slice_chars,
    lowercased, string_of, substring, to_lowercase,
};
use vstd::prelude::*;

verus! {

/// A run of message text together with its style.
#[derive(Debug, Clone, PartialEq, Eq)]
pub enum Segment {
    /// Text outside any tag.
    Plain(String),
    /// Bold text (`<bold>`, `<b>`).
    Bold(String),
    /// Dimmed text (`<dim>`).
    Dim(String),
    /// Italic text (`<italic>`, `<i>`).
    Italic(String),
    /// Underlined text (`<underline>`, `<u>`).
    Underline(String),
    /// Text in a named or `#hex` color: (text, color name).
    Colored(String, String),
}

/// The mathematical value of a segment.
pub enum SegmentView {
    Plain(Seq<char>),
    Bold(Seq<char>),
    Dim(Seq<char>),
    Italic(Seq<char>),
    Underline(Seq<char>),
    Colored(Seq<char>, Seq<char>),
}

impl View for Segment {
    type V = SegmentView;

    open spec fn view(&self) -> SegmentView {
        match self {
            Segment::Plain(t) => SegmentView::Plain(t@),
            Segment::Bold(t) => SegmentView::Bold(t@),
            Segment::Dim(t) => SegmentView::Dim(t@),
            Segment::Italic(t) => SegmentView::Italic(t@),
            Segment::Underline(t) => SegmentView::Underline(t@),
            Segment::Colored(t, n) => SegmentView::Colored(t@, n@),
        }
    }
}

/// The views of a list of segments.
pub open spec fn views(s: Seq<Segment>) -> Seq<SegmentView> {
    s.map_values(|x: Segment| x@)
}

/// The text of a segment, without styling.
pub open spec fn seg_text(s: SegmentView) -> Seq<char> {
    match s {
        SegmentView::Plain(t) => t,
        SegmentView::Bold(t) => t,
        SegmentView::Dim(t) => t,
        SegmentView::Italic(t) => t,
        SegmentView::Underline(t) => t,
        SegmentView::Colored(t, _) => t,
    }
}

/// The segment a tag named `name` produces around `content`; the style keywords
/// are compared after full lowercase mapping, unknown names are colors.
pub open spec fn styled(name: Seq<char>, content: Seq<char>) -> SegmentView {
    let l = lowercased(name);
    if l == "bold"@ || l == "b"@ {
        SegmentView::Bold(content)
    } else if l == "dim"@ {
        SegmentView::Dim(content)
    } else if l == "italic"@ || l == "i"@ {
        SegmentView::Italic(content)
    } else if l == "underline"@ || l == "u"@ {
        SegmentView::Underline(content)
    } else {
        SegmentView::Colored(content, name)
    }
}

/// The closing tag for `name`.
pub open spec fn close_tag(name: Seq<char>) -> Seq<char> {
    "</"@ + name + ">"@
}

/// One step of the scanner: the segment it emits, if any, and where it goes on.
pub struct Step {
    pub seg: Option<SegmentView>,
    pub next: int,
}

/// A plain-text step at `i`: the text from `i` up to the next `<` after it
/// (or the end). A `<` that starts no complete tag is kept this way as text.
pub open spec fn plain_step(m: Seq<char>, i: int) -> Step {
    let nt = match find_char_from(m, '<', i + 1) {
        Some(t) => t,
        None => m.len() as int,
    };
    Step { seg: Some(SegmentView::Plain(m.subrange(i, nt))), next: nt }
}

/// The scanner's step at position `i < m.len()`.
pub open spec fn step(m: Seq<char>, i: int) -> Step {
    if m[i] == '<' {
        match find_char_from(m, '>', i + 1) {
            Some(j) => {
                let name = m.subrange(i + 1, j);
                if name.len() > 0 && name[0] == '/' {
                    Step { seg: None, next: j + 1 }
                } else {
                    match find_sub_from(m, close_tag(name), j + 1) {
                        Some(k) => Step {
                            seg: Some(styled(name, m.subrange(j + 1, k))),
                            next: k + close_tag(name).len(),
                        },
                        None => plain_step(m, i),
                    }
                }
            },
            None => plain_step(m, i),
        }
    } else {
        plain_step(m, i)
    }
}

/// The segments of `m` from position `i` on.
pub open spec fn parse_from(m: Seq<char>, i: int) -> Seq<SegmentView>
    decreases m.len() - i,
{
    if i < 0 || i >= m.len() {
        Seq::empty()
    } else {
        let st = step(m, i);
        if i < st.next <= m.len() {
            match st.seg {
                Some(s) => seq![s] + parse_from(m, st.next),
                None => parse_from(m, st.next),
            }
        } else {
            Seq::empty()
        }
    }
}

/// The segments of a whole message.
pub open spec fn spec_parse(m: Seq<char>) -> Seq<SegmentView> {
    parse_from(m, 0)
}

/// The ANSI rendering of one segment with the given named colors.
pub open spec fn spec_render_segment(s: SegmentView, colors: Map<Seq<char>, Color>) -> Seq<char> {
    match s {
        SegmentView::Plain(t) => t,
        SegmentView::Bold(t) => "\x1b[1m"@ + t + "\x1b[0m"@,
        SegmentView::Dim(t) => "\x1b[2m"@ + t + "\x1b[0m"@,
        SegmentView::Italic(t) => "\x1b[3m"@ + t + "\x1b[0m"@,
        SegmentView::Underline(t) => "\x1b[4m"@ + t + "\x1b[0m"@,
        SegmentView::Colored(t, name) => {
            let c = if has_prefix(name, "#"@) {
                spec_from_hex(name)
            } else if colors.contains_key(name) {
                colors[name]
            } else {
                Color { r: 255, g: 255, b: 255 }
            };
            spec_fg_ansi(c) + t + "\x1b[0m"@
        },
    }
}

/// The concatenated ANSI rendering of segments.
pub open spec fn spec_render_all(s: Seq<SegmentView>, colors: Map<Seq<char>, Color>) -> Seq<char>
    decreases s.len(),
{
    if s.len() == 0 {
        Seq::empty()
    } else {
        spec_render_all(s.drop_last(), colors) + spec_render_segment(s.last(), colors)
    }
}

/// The concatenated text of segments.
pub open spec fn spec_plain_all(s: Seq<SegmentView>) -> Seq<char>
    decreases s.len(),
{
    if s.len() == 0 {
        Seq::empty()
    } else {
        spec_plain_all(s.drop_last()) + seg_text(s.last())
    }
}

impl Segment {
    /// The text of the segment without styling.
    pub fn text(&self) -> (t: &str)
        ensures
            t@ == seg_text(self@),
    {
        match self {
            Segment::Plain(t) => t.as_str(),
            Segment::Bold(t) => t.as_str(),
            Segment::Dim(t) => t.as_str(),
            Segment::Italic(t) => t.as_str(),
            Segment::Underline(t) => t.as_str(),
            Segment::Colored(t, _) => t.as_str(),
        }
    }

    /// ANSI rendering; color names resolve against `colors`, `#hex` names are parsed,
    /// unknown names render white.
    pub fn render(&self, colors: &StrMap<Color>) -> (r: String)
        ensures
            r@ == spec_render_segment(self@, colors@),
    {
        let mut v: Vec<char> = Vec::new();
        match self {
            Segment::Plain(t) => {
                push_str(&mut v, t.as_str());
            },
            Segment::Bold(t) => {
                push_str(&mut v, "\x1b[1m");
                push_str(&mut v, t.as_str());
                push_str(&mut v, "\x1b[0m");
            },
            Segment::Dim(t) => {
                push_str(&mut v, "\x1b[2m");
                push_str(&mut v, t.as_str());
                push_str(&mut v, "\x1b[0m");
            },
            Segment::Italic(t) => {
                push_str(&mut v, "\x1b[3m");
                push_str(&mut v, t.as_str());
                push_str(&mut v, "\x1b[0m");
            },
            Segment::Underline(t) => {
                push_str(&mut v, "\x1b[4m");
                push_str(&mut v, t.as_str());
                push_str(&mut v, "\x1b[0m");
            },
            Segment::Colored(t, name) => {
                let nv = chars_of(name.as_str());
                let color = if crate::text::starts_with(&nv, "#") {
                    Color::from_hex(name.as_str())
                } else {
                    match colors.get(name.as_str()) {
                        Some(c) => *c,
                        None => Color::white(),
                    }
                };
                let fg = color.fg_ansi();
                push_str(&mut v, fg.as_str());
                push_str(&mut v, t.as_str());
                push_str(&mut v, "\x1b[0m");
            },
        }
        assert(v@ =~= spec_render_segment(self@, colors@));
        string_of(&v)
    }

    /// The text of the segment as an owned string.
    pub fn render_plain(&self) -> (r: String)
        ensures
            r@ == seg_text(self@),
    {
        let t = self.text();
        crate::text::owned(t)
    }
}

fn make_styled(name: &Vec<char>, content: String) -> (s: Segment)
    ensures
        s@ == styled(name@, content@),
{
    let name_str = string_of(name);
    let lower_s = to_lowercase(name_str.as_str());
    let l = chars_of(lower_s.as_str());
    if chars_eq_str(&l, "bold") || chars_eq_str(&l, "b") {
        Segment::Bold(content)
    } else if chars_eq_str(&l, "dim") {
        Segment::Dim(content)
    } else if chars_eq_str(&l, "italic") || chars_eq_str(&l, "i") {
        Segment::Italic(content)
    } else if chars_eq_str(&l, "underline") || chars_eq_str(&l, "u") {
        Segment::Underline(content)
    } else {
        Segment::Colored(content, name_str)
    }
}

/// What the scanner does at position `i`: the segment to emit and where to go next.
fn scan_step(m: &Vec<char>, i: usize) -> (r: (Option<Segment>, usize))
    requires
        i < m@.len(),
    ensures
        r.1 == step(m@, i as int).next,
        match (r.0, step(m@, i as int).seg) {
            (Some(a), Some(b)) => a@ == b,
            (None, None) => true,
            _ => false,
        },
        i < r.1 <= m@.len(),
{
    proof {
        lemma_find_char_from(m@, '>', i + 1);
        lemma_find_char_from(m@, '<', i + 1);
    }
    let n = m.len();
    if m[i] == '<' {
        if let Some(j) = find_char(m, '>', i + 1) {
            let name = slice_chars(m, i + 1, j);
            if name.len() > 0 && name[0] == '/' {
                return (None, j + 1);
            }
            let mut close: Vec<char> = Vec::new();
            push_str(&mut close, "</");
            push_chars(&mut close, &name);
            push_str(&mut close, ">");
            assert(close@ == close_tag(name@));
            proof {
                lemma_find_sub_from(m@, close@, j + 1);
            }
            if let Some(k) = find_sub(m, &close, j + 1) {
                let content = substring(m, j + 1, k);
                let seg = make_styled(&name, content);
                return (Some(seg), k + close.len());
            }
        }
    }
    let nt = match find_char(m, '<', i + 1) {
        Some(t) => t,
        None => m.len(),
    };
    (Some(Segment::Plain(substring(m, i, nt))), nt)
}

/// Splits a message into styled segments. Each `<name>` is matched with the next
/// `</name>`; closing tags on their own are dropped; tags do not nest; a `<`
/// that starts no complete tag stays in the text.
pub fn parse(msg: &str) -> (r: Vec<Segment>)
    ensures
        views(r@) == spec_parse(msg@),
{
    let m = chars_of(msg);
    let mut segs: Vec<Segment> = Vec::new();
    let mut i: usize = 0;
    while i < m.len()
        invariant
            i <= m@.len(),
            m@ == msg@,
            spec_parse(m@) == views(segs@) + parse_from(m@, i as int),
        decreases m@.len() - i,
    {
        let (seg, next) = scan_step(&m, i);
        let ghost before = segs@;
        let ghost rest = parse_from(m@, next as int);
        match seg {
            Some(s) => {
                let ghost sv = s@;
                segs.push(s);
                assert(views(segs@) =~= views(before) + seq![sv]);
                assert(views(before) + (seq![sv] + rest) =~= views(segs@) + rest);
            },
            None => {},
        }
        i = next;
    }
    assert(views(segs@) + Seq::<SegmentView>::empty() =~= views(segs@));
    segs
}

/// ANSI rendering of all segments, concatenated.
pub fn render(segments: &Vec<Segment>, colors: &StrMap<Color>) -> (r: String)
    ensures
        r@ == spec_render_all(views(segments@), colors@),
{
    let mut v: Vec<char> = Vec::new();
    let mut i: usize = 0;
    while i < segments.len()
        invariant
            i <= segments@.len(),
            v@ == spec_render_all(views(segments@.take(i as int)), colors@),
        decreases segments@.len() - i,
    {
        let s = segments[i].render(colors);
        push_str(&mut v, s.as_str());
        i = i + 1;
        assert(views(segments@.take(i as int)).drop_last() =~= views(segments@.take(i - 1)));
    }
    assert(segments@.take(segments@.len() as int) =~= segments@);
    string_of(&v)
}

/// Plain text of all segments, concatenated.
pub fn render_plain(segments: &Vec<Segment>) -> (r: String)
    ensures
        r@ == spec_plain_all(views(segments@)),
{
    let mut v: Vec<char> = Vec::new();
    let mut i: usize = 0;
    while i < segments.len()
        invariant
            i <= segments@.len(),
            v@ == spec_plain_all(views(segments@.take(i as int))),
        decreases segments@.len() - i,
    {
        push_str(&mut v, segments[i].text());
        i = i + 1;
        assert(views(segments@.take(i as int)).drop_last() =~= views(segments@.take(i - 1)));
    }
    assert(segments@.take(segments@.len() as int) =~= segments@);
    string_of(&v)
}

/// The message with all style tags removed.
pub fn strip_tags(msg: &str) -> (r: String)
    ensures
        r@ == spec_plain_all(spec_parse(msg@)),
{
    let segs = parse(msg);
    render_plain(&segs)
}


/// The text of concatenated segments is the concatenation of their texts.
pub proof fn lemma_plain_all_concat(a: Seq<SegmentView>, b: Seq<SegmentView>)
    ensures
        spec_plain_all(a + b) == spec_plain_all(a) + spec_plain_all(b),
    decreases b.len(),
{
    if b.len() == 0 {
        assert(a + b =~= a);
        assert(spec_plain_all(a) + Seq::<char>::empty() =~= spec_plain_all(a));
    } else {
        assert((a + b).drop_last() =~= a + b.drop_last());
        lemma_plain_all_concat(a, b.drop_last());
        assert(spec_plain_all(a) + spec_plain_all(b.drop_last()) + seg_text(b.last())
            =~= spec_plain_all(a) + (spec_plain_all(b.drop_last()) + seg_text(b.last())));
    }
}

proof fn lemma_plain_from(m: Seq<char>, i: int)
    requires
        0 <= i <= m.len(),
        !crate::text::contains_char(m, '>'),
    ensures
        spec_plain_all(parse_from(m, i)) == m.subrange(i, m.len() as int),
    decreases m.len() - i,
{
    if i == m.len() {
        assert(m.subrange(i, m.len() as int) =~= Seq::<char>::empty());
    } else {
        crate::text::lemma_find_char_from(m, '>', i + 1);
        crate::text::lemma_find_char_from(m, '<', i + 1);
        assert(find_char_from(m, '>', i + 1) is None) by {
            if find_char_from(m, '>', i + 1) is Some {
                let k = find_char_from(m, '>', i + 1).unwrap();
                assert(m[k] == '>');
                assert(crate::text::contains_char(m, '>'));
            }
        }
        let st = plain_step(m, i);
        assert(step(m, i) == st);
        let nt = st.next;
        lemma_plain_from(m, nt);
        let seg = SegmentView::Plain(m.subrange(i, nt));
        lemma_plain_all_concat(seq![seg], parse_from(m, nt));
        assert(seq![seg].drop_last() =~= Seq::<SegmentView>::empty());
        assert(seq![seg].last() == seg);
        assert(spec_plain_all(Seq::<SegmentView>::empty()) == Seq::<char>::empty());
        assert(spec_plain_all(seq![seg]) =~= m.subrange(i, nt));
        assert(m.subrange(i, nt) + m.subrange(nt, m.len() as int) =~= m.subrange(i, m.len() as int));
    }
}

/// Parsing keeps every character of a message without `>`: no tag can
/// close in it, so each `<` stays as text and the plain text is the message.
pub proof fn law_unmatched_brackets_stay_text(m: Seq<char>)
    requires
        !crate::text::contains_char(m, '>'),
    ensures
        spec_plain_all(spec_parse(m)) == m,
{
    lemma_plain_from(m, 0);
    assert(m.subrange(0, m.len() as int) =~= m);
}

/// Text without `<` is a single plain segment: styling never alters it.
pub proof fn law_untagged_text_is_plain(m: Seq<char>)
    requires
        m.len() > 0,
        !crate::text::contains_char(m, '<'),
    ensures
        spec_parse(m) == seq![SegmentView::Plain(m)],
        spec_plain_all(seq![SegmentView::Plain(m)]) == m,
{
    crate::text::lemma_find_char_from(m, '<', 1);
    assert(find_char_from(m, '<', 1) is None) by {
        if find_char_from(m, '<', 1) is Some {
            let k = find_char_from(m, '<', 1).unwrap();
            assert(m[k] == '<');
        }
    }
    assert(m[0] != '<') by {
        if m[0] == '<' {
            assert(crate::text::contains_char(m, '<'));
        }
    }
    assert(m.subrange(0, m.len() as int) =~= m);
    assert(step(m, 0) == plain_step(m, 0));
    assert(parse_from(m, m.len() as int) == Seq::<SegmentView>::empty());
    assert(seq![SegmentView::Plain(m)] + Seq::<SegmentView>::empty() =~= seq![SegmentView::Plain(m)]);
    assert(seq![SegmentView::Plain(m)].drop_last() =~= Seq::<SegmentView>::empty());
    assert(spec_plain_all(Seq::<SegmentView>::empty()) == Seq::<char>::empty());
    assert(Seq::<char>::empty() + m =~= m);
}

/// A style tag around `text`: `<name>text</name>`.
pub open spec fn tag_block(name: Seq<char>, text: Seq<char>) -> Seq<char> {
    "<"@ + name + ">"@ + text + close_tag(name)
}

/// Whether `name` reads back as the name of an opening tag: non-empty, not
/// starting with `/`, and holding no `<` or `>`.
pub open spec fn plain_tag_name(name: Seq<char>) -> bool {
    name.len() > 0 && name[0] != '/' && !name.contains('<') && !name.contains('>')
}

/// A run of text without `<` that ends at the end of `m` or just before a `<`
/// is read as one plain segment.
pub proof fn lemma_parse_plain_run(m: Seq<char>, i: int, p: Seq<char>)
    requires
        0 <= i,
        i + p.len() <= m.len(),
        m.subrange(i, i + p.len()) == p,
        p.len() > 0,
        !p.contains('<'),
        i + p.len() == m.len() || m[i + p.len()] == '<',
    ensures
        parse_from(m, i) == seq![SegmentView::Plain(p)] + parse_from(m, i + p.len()),
{
    let e = i + p.len();
    assert(m[i] == p[0]);
    assert(m[i] != '<') by {
        if m[i] == '<' {
            assert(p.contains('<'));
        }
    }
    crate::text::lemma_find_char_from(m, '<', i + 1);
    let nt = match find_char_from(m, '<', i + 1) {
        Some(t) => t,
        None => m.len() as int,
    };
    assert(nt == e) by {
        match find_char_from(m, '<', i + 1) {
            Some(t) => {
                if t < e {
                    assert(m[t] == p[t - i]);
                    assert(p.contains('<'));
                }
                if t > e {
                    assert(m[e] == '<');
                }
            },
            None => {
                if e < m.len() {
                    assert(m[e] == '<');
                }
            },
        }
    }
    assert(step(m, i) == plain_step(m, i));
    assert(m.subrange(i, nt) == p);
}

/// A tag block whose name reads back and whose text holds no `<` is read as
/// one styled segment of that text.
pub proof fn lemma_parse_tag_block(m: Seq<char>, i: int, name: Seq<char>, text: Seq<char>)
    requires
        0 <= i,
        i + tag_block(name, text).len() <= m.len(),
        m.subrange(i, i + tag_block(name, text).len()) == tag_block(name, text),
        plain_tag_name(name),
        !text.contains('<'),
    ensures
        parse_from(m, i) == seq![styled(name, text)] + parse_from(
            m,
            i + tag_block(name, text).len(),
        ),
{
    reveal_strlit("<");
    reveal_strlit(">");
    reveal_strlit("</");
    let tb = tag_block(name, text);
    let j = i + 1 + name.len();
    let k = j + 1 + text.len();
    let close = close_tag(name);
    assert(tb.len() == name.len() + text.len() + close.len() + 2);
    assert(m[i] == tb[0]);
    assert(tb[0] == '<');
    assert forall|x: int| i + 1 <= x < j implies m[x] != '>' by {
        assert(m[x] == tb[x - i]);
        assert(tb[x - i] == name[x - i - 1]);
        if m[x] == '>' {
            assert(name.contains('>'));
        }
    }
    assert(m[j] == tb[j - i]);
    assert(tb[j - i] == '>');
    crate::text::lemma_find_char_from(m, '>', i + 1);
    assert(find_char_from(m, '>', i + 1) == Some(j)) by {
        match find_char_from(m, '>', i + 1) {
            Some(t) => {
                if t < j {
                    assert(m[t] != '>');
                }
            },
            None => {},
        }
    }
    assert(m.subrange(i + 1, j) =~= name) by {
        assert forall|x: int| 0 <= x < name.len() implies m.subrange(i + 1, j)[x] == name[x] by {
            assert(m[i + 1 + x] == tb[1 + x]);
        }
    }
    assert(occurs_at(m, close, k)) by {
        assert(m.subrange(k, k + close.len()) =~= close) by {
            assert forall|x: int| 0 <= x < close.len() implies m.subrange(k, k + close.len())[x]
                == close[x] by {
                assert(m[k + x] == tb[k - i + x]);
            }
        }
    }
    assert forall|x: int| j + 1 <= x < k implies !occurs_at(m, close, x) by {
        assert(m[x] == tb[x - i]);
        assert(tb[x - i] == text[x - j - 1]);
        if occurs_at(m, close, x) {
            assert(m.subrange(x, x + close.len())[0] == close[0]);
            assert(close[0] == '<');
            assert(text.contains('<'));
        }
    }
    crate::text::lemma_find_sub_from(m, close, j + 1);
    assert(find_sub_from(m, close, j + 1) == Some(k)) by {
        match find_sub_from(m, close, j + 1) {
            Some(t) => {
                if t > k {
                    assert(!occurs_at(m, close, k));
                }
            },
            None => {},
        }
    }
    assert(m.subrange(j + 1, k) =~= text) by {
        assert forall|x: int| 0 <= x < text.len() implies m.subrange(j + 1, k)[x] == text[x] by {
            assert(m[j + 1 + x] == tb[j + 1 - i + x]);
        }
    }
    assert(name.len() > 0 && name[0] != '/');
    assert(step(m, i) == Step { seg: Some(styled(name, text)), next: k + close.len() });
}

/// The text of a styled segment is its content.
pub proof fn lemma_styled_text(name: Seq<char>, content: Seq<char>)
    ensures
        seg_text(styled(name, content)) == content,
{
}


/// A color segment named `#…` is drawn in the color that name denotes as hex
/// text, whatever named colors are configured.
pub proof fn law_hash_named_segment_uses_hex(t: Seq<char>, n: Seq<char>, colors: Map<Seq<char>, Color>)
    requires
        n.len() > 0,
        n[0] == '#',
    ensures
        spec_render_segment(SegmentView::Colored(t, n), colors) == spec_fg_ansi(spec_from_hex(n)) + t
            + "\x1b[0m"@,
{
    reveal_strlit("#");
    assert(n.subrange(0, 1) =~= "#"@);
}

/// Markup `<#rrggbb>text</#rrggbb>` renders `text` in exactly that color:
/// the foreground escape of the color, the text, and a reset.
pub proof fn law_hex_tag_renders_its_color(c: Color, t: Seq<char>, colors: Map<Seq<char>, Color>)
    requires
        !t.contains('<'),
    ensures
        spec_render_all(
            spec_parse(tag_block(seq!['#'] + hex2(c.r) + hex2(c.g) + hex2(c.b), t)),
            colors,
        ) == spec_fg_ansi(c) + t + "\x1b[0m"@,
{
    let n = seq!['#'] + hex2(c.r) + hex2(c.g) + hex2(c.b);
    let m = tag_block(n, t);
    lemma_hex_form_digits(c);
    assert forall|i: int| 0 <= i < n.len() implies n[i] != '<' && n[i] != '>' && crate::text::is_ascii_char(
        #[trigger] n[i],
    ) by {
        if i > 0 {
            assert(hex_value(n[i]) is Some);
        }
    }
    assert(plain_tag_name(n));
    assert(m.subrange(0, m.len() as int) =~= m);
    lemma_parse_tag_block(m, 0, n, t);
    assert(parse_from(m, m.len() as int) == Seq::<SegmentView>::empty());
    let segs = seq![styled(n, t)] + Seq::<SegmentView>::empty();
    assert(spec_parse(m) == segs);
    reveal_strlit("bold");
    reveal_strlit("b");
    reveal_strlit("dim");
    reveal_strlit("italic");
    reveal_strlit("i");
    reveal_strlit("underline");
    reveal_strlit("u");
    assert(crate::text::is_ascii_chars(n));
    assert(crate::text::lowercased(n).len() == 7);
    assert(styled(n, t) == SegmentView::Colored(t, n));
    law_hash_named_segment_uses_hex(t, n, colors);
    law_hex_round_trip(c);
    assert(segs =~= seq![SegmentView::Colored(t, n)]);
    assert(segs.drop_last() =~= Seq::<SegmentView>::empty());
    assert(spec_render_all(Seq::<SegmentView>::empty(), colors) == Seq::<char>::empty());
    assert(Seq::<char>::empty() + spec_render_segment(SegmentView::Colored(t, n), colors)
        =~= spec_render_segment(SegmentView::Colored(t, n), colors));
}

} // verus!
