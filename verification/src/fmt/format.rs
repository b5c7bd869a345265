//! Output templates such as `{tag} {scope}  {msg}`: parsed once into segments,
//! rendered for every log line.
use crate::text::{chars_eq_str, chars_of, find_char, find_char_from, lemma_find_char_from, owned, push_chars, push_str, string_of};
use vstd::prelude::*;

verus! {

/// The known substitution tokens; unknown `{names}` stay literal text.
#[derive(Debug, Clone, Copy, PartialEq, Eq, Structural)]
pub enum Placeholder {
    Tag,
    Icon,
    Scope,
    Msg,
    Timestamp,
    Level,
    App,
    Year,
    Month,
    Day,
}

impl Placeholder {
    /// The name written between braces.
    pub open spec fn name(self) -> Seq<char> {
        match self {
            Placeholder::Tag => "tag"@,
            Placeholder::Icon => "icon"@,
            Placeholder::Scope => "scope"@,
            Placeholder::Msg => "msg"@,
            Placeholder::Timestamp => "timestamp"@,
            Placeholder::Level => "level"@,
            Placeholder::App => "app"@,
            Placeholder::Year => "year"@,
            Placeholder::Month => "month"@,
            Placeholder::Day => "day"@,
        }
    }

    /// The name written between braces.
    pub fn as_str(self) -> (r: &'static str)
        ensures
            r@ == self.name(),
    {
        match self {
            Placeholder::Tag => "tag",
            Placeholder::Icon => "icon",
            Placeholder::Scope => "scope",
            Placeholder::Msg => "msg",
            Placeholder::Timestamp => "timestamp",
            Placeholder::Level => "level",
            Placeholder::App => "app",
            Placeholder::Year => "year",
            Placeholder::Month => "month",
            Placeholder::Day => "day",
        }
    }

    /// All placeholders, in matching order.
    pub const ALL: [Placeholder; 10] = [
        Placeholder::Tag,
        Placeholder::Icon,
        Placeholder::Scope,
        Placeholder::Msg,
        Placeholder::Timestamp,
        Placeholder::Level,
        Placeholder::App,
        Placeholder::Year,
        Placeholder::Month,
        Placeholder::Day,
    ];
}

/// The placeholder whose name is `name`.
pub open spec fn spec_match_placeholder(name: Seq<char>) -> Option<Placeholder> {
    if name == "tag"@ {
        Some(Placeholder::Tag)
    } else if name == "icon"@ {
        Some(Placeholder::Icon)
    } else if name == "scope"@ {
        Some(Placeholder::Scope)
    } else if name == "msg"@ {
        Some(Placeholder::Msg)
    } else if name == "timestamp"@ {
        Some(Placeholder::Timestamp)
    } else if name == "level"@ {
        Some(Placeholder::Level)
    } else if name == "app"@ {
        Some(Placeholder::App)
    } else if name == "year"@ {
        Some(Placeholder::Year)
    } else if name == "month"@ {
        Some(Placeholder::Month)
    } else if name == "day"@ {
        Some(Placeholder::Day)
    } else {
        None
    }
}

fn match_placeholder(name: &Vec<char>) -> (r: Option<Placeholder>)
    ensures
        r == spec_match_placeholder(name@),
{
    if chars_eq_str(name, "tag") {
        Some(Placeholder::Tag)
    } else if chars_eq_str(name, "icon") {
        Some(Placeholder::Icon)
    } else if chars_eq_str(name, "scope") {
        Some(Placeholder::Scope)
    } else if chars_eq_str(name, "msg") {
        Some(Placeholder::Msg)
    } else if chars_eq_str(name, "timestamp") {
        Some(Placeholder::Timestamp)
    } else if chars_eq_str(name, "level") {
        Some(Placeholder::Level)
    } else if chars_eq_str(name, "app") {
        Some(Placeholder::App)
    } else if chars_eq_str(name, "year") {
        Some(Placeholder::Year)
    } else if chars_eq_str(name, "month") {
        Some(Placeholder::Month)
    } else if chars_eq_str(name, "day") {
        Some(Placeholder::Day)
    } else {
        None
    }
}

/// A parsed piece of a template.
#[derive(Debug, Clone, PartialEq, Eq)]
pub enum FormatSegment {
    /// Text copied as is (including unknown `{names}`).
    Literal(String),
    /// A token substituted at render time.
    Placeholder(Placeholder),
}

/// The mathematical value of a template segment.
pub enum FormatSegmentView {
    Literal(Seq<char>),
    Placeholder(Placeholder),
}

impl View for FormatSegment {
    type V = FormatSegmentView;

    open spec fn view(&self) -> FormatSegmentView {
        match self {
            FormatSegment::Literal(s) => FormatSegmentView::Literal(s@),
            FormatSegment::Placeholder(p) => FormatSegmentView::Placeholder(*p),
        }
    }
}

/// The pending literal as a list of at most one segment.
pub open spec fn flush(cur: Seq<char>) -> Seq<FormatSegmentView> {
    if cur.len() > 0 {
        seq![FormatSegmentView::Literal(cur)]
    } else {
        Seq::empty()
    }
}

/// Template segments from position `i` on, with `cur` the literal text pending.
pub open spec fn parse_template_from(t: Seq<char>, i: int, cur: Seq<char>) -> Seq<
    FormatSegmentView,
>
    decreases t.len() - i,
{
    if i < 0 || i >= t.len() {
        flush(cur)
    } else if t[i] == '{' && find_char_from(t, '}', i) is Some && i < find_char_from(
        t,
        '}',
        i,
    ).unwrap() < t.len() {
        let e = find_char_from(t, '}', i).unwrap();
        let name = t.subrange(i + 1, e);
        let seg = match spec_match_placeholder(name) {
            Some(p) => FormatSegmentView::Placeholder(p),
            None => FormatSegmentView::Literal("{"@ + name + "}"@),
        };
        flush(cur) + seq![seg] + parse_template_from(t, e + 1, Seq::empty())
    } else {
        parse_template_from(t, i + 1, cur.push(t[i]))
    }
}

/// The segments of a template: literal runs and `{placeholder}` tokens; a `{name}`
/// that is not a placeholder becomes a literal segment of its own.
pub open spec fn spec_parse_template(t: Seq<char>) -> Seq<FormatSegmentView> {
    parse_template_from(t, 0, Seq::empty())
}

/// The views of a list of template segments.
pub open spec fn fviews(s: Seq<FormatSegment>) -> Seq<FormatSegmentView> {
    s.map_values(|x: FormatSegment| x@)
}

/// A pre-parsed output template.
#[derive(Debug, Clone)]
pub struct FormatTemplate {
    segments: Vec<FormatSegment>,
}

/// The values substituted into a template.
pub struct FormatValuesView {
    pub tag: Seq<char>,
    pub icon: Seq<char>,
    pub scope: Seq<char>,
    pub msg: Seq<char>,
    pub timestamp: Seq<char>,
    pub level: Seq<char>,
    pub app: Seq<char>,
    pub year: Seq<char>,
    pub month: Seq<char>,
    pub day: Seq<char>,
}

/// The value a placeholder is replaced with.
pub open spec fn value_of(v: FormatValuesView, p: Placeholder) -> Seq<char> {
    match p {
        Placeholder::Tag => v.tag,
        Placeholder::Icon => v.icon,
        Placeholder::Scope => v.scope,
        Placeholder::Msg => v.msg,
        Placeholder::Timestamp => v.timestamp,
        Placeholder::Level => v.level,
        Placeholder::App => v.app,
        Placeholder::Year => v.year,
        Placeholder::Month => v.month,
        Placeholder::Day => v.day,
    }
}

/// The rendering of template segments with the given values.
pub open spec fn spec_render_template(s: Seq<FormatSegmentView>, v: FormatValuesView) -> Seq<char>
    decreases s.len(),
{
    if s.len() == 0 {
        Seq::empty()
    } else {
        spec_render_template(s.drop_last(), v) + match s.last() {
            FormatSegmentView::Literal(t) => t,
            FormatSegmentView::Placeholder(p) => value_of(v, p),
        }
    }
}

impl View for FormatTemplate {
    type V = Seq<FormatSegmentView>;

    closed spec fn view(&self) -> Seq<FormatSegmentView> {
        fviews(self.segments@)
    }
}

impl FormatTemplate {
    /// Parses a template such as `"{tag} {scope}  {msg}"`.
    pub fn parse(template: &str) -> (r: FormatTemplate)
        ensures
            r@ == spec_parse_template(template@),
    {
        let t = chars_of(template);
        let mut segments: Vec<FormatSegment> = Vec::new();
        let mut current: Vec<char> = Vec::new();
        let mut i: usize = 0;
        while i < t.len()
            invariant
                i <= t@.len(),
                t@ == template@,
                spec_parse_template(t@) == fviews(segments@) + parse_template_from(
                    t@,
                    i as int,
                    current@,
                ),
            decreases t@.len() - i,
        {
            if t[i] == '{' {
                proof {
                    lemma_find_char_from(t@, '}', i as int);
                }
                if let Some(end) = find_char(&t, '}', i) {
                    let ghost before = segments@;
                    let ghost cur = current@;
                    let name = crate::text::slice_chars(&t, i + 1, end);
                    if current.len() > 0 {
                        let lit = string_of(&current);
                        segments.push(FormatSegment::Literal(lit));
                        current = Vec::new();
                    }
                    assert(fviews(segments@) =~= fviews(before) + flush(cur));
                    let ghost mid = segments@;
                    match match_placeholder(&name) {
                        Some(ph) => {
                            segments.push(FormatSegment::Placeholder(ph));
                        },
                        None => {
                            let mut lit: Vec<char> = Vec::new();
                            push_str(&mut lit, "{");
                            push_chars(&mut lit, &name);
                            push_str(&mut lit, "}");
                            assert(lit@ =~= "{"@ + name@ + "}"@);
                            segments.push(FormatSegment::Literal(string_of(&lit)));
                        },
                    }
                    proof {
                        let seg = match spec_match_placeholder(name@) {
                            Some(p) => FormatSegmentView::Placeholder(p),
                            None => FormatSegmentView::Literal("{"@ + name@ + "}"@),
                        };
                        assert(fviews(segments@) =~= fviews(mid) + seq![seg]);
                        assert(fviews(before) + (flush(cur) + seq![seg] + parse_template_from(
                            t@,
                            end + 1,
                            Seq::empty(),
                        )) =~= fviews(segments@) + parse_template_from(
                            t@,
                            end + 1,
                            Seq::empty(),
                        ));
                    }
                    assert(current@ =~= Seq::<char>::empty());
                    i = end + 1;
                    continue ;
                }
            }
            current.push(t[i]);
            i = i + 1;
        }
        let ghost before = segments@;
        if current.len() > 0 {
            let lit = string_of(&current);
            segments.push(FormatSegment::Literal(lit));
        }
        assert(fviews(segments@) =~= fviews(before) + flush(current@));
        FormatTemplate { segments }
    }

    /// The parsed segments.
    pub fn segments(&self) -> (r: &Vec<FormatSegment>)
        ensures
            fviews(r@) == self@,
    {
        &self.segments
    }

    /// Substitutes the values into the template.
    pub fn render(&self, values: &FormatValues) -> (r: String)
        ensures
            r@ == spec_render_template(self@, values@),
    {
        let mut v: Vec<char> = Vec::new();
        let mut i: usize = 0;
        while i < self.segments.len()
            invariant
                i <= self.segments@.len(),
                v@ == spec_render_template(fviews(self.segments@.take(i as int)), values@),
            decreases self.segments@.len() - i,
        {
            match &self.segments[i] {
                FormatSegment::Literal(s) => push_str(&mut v, s.as_str()),
                FormatSegment::Placeholder(ph) => {
                    let value = match ph {
                        Placeholder::Tag => &values.tag,
                        Placeholder::Icon => &values.icon,
                        Placeholder::Scope => &values.scope,
                        Placeholder::Msg => &values.msg,
                        Placeholder::Timestamp => &values.timestamp,
                        Placeholder::Level => &values.level,
                        Placeholder::App => &values.app,
                        Placeholder::Year => &values.year,
                        Placeholder::Month => &values.month,
                        Placeholder::Day => &values.day,
                    };
                    push_str(&mut v, value.as_str());
                },
            }
            i = i + 1;
            assert(fviews(self.segments@.take(i as int)).drop_last() =~= fviews(
                self.segments@.take(i - 1),
            ));
        }
        assert(self.segments@.take(self.segments@.len() as int) =~= self.segments@);
        string_of(&v)
    }

    /// The default terminal layout `{tag} {scope}  {msg}`.
    pub fn default_template() -> (r: FormatTemplate)
        ensures
            r@ == spec_parse_template("{tag} {scope}  {msg}"@),
    {
        FormatTemplate::parse("{tag} {scope}  {msg}")
    }
}

impl Default for FormatTemplate {
    fn default() -> (r: FormatTemplate)
        ensures
            r@ == spec_parse_template("{tag} {scope}  {msg}"@),
    {
        FormatTemplate::default_template()
    }
}

/// The strings substituted for each placeholder.
#[derive(Debug, Clone)]
pub struct FormatValues {
    pub tag: String,
    pub icon: String,
    pub scope: String,
    pub msg: String,
    pub timestamp: String,
    pub level: String,
    pub app: String,
    pub year: String,
    pub month: String,
    pub day: String,
}

impl View for FormatValues {
    type V = FormatValuesView;

    open spec fn view(&self) -> FormatValuesView {
        FormatValuesView {
            tag: self.tag@,
            icon: self.icon@,
            scope: self.scope@,
            msg: self.msg@,
            timestamp: self.timestamp@,
            level: self.level@,
            app: self.app@,
            year: self.year@,
            month: self.month@,
            day: self.day@,
        }
    }
}

/// The view with every value empty.
pub open spec fn empty_values() -> FormatValuesView {
    FormatValuesView {
        tag: Seq::empty(),
        icon: Seq::empty(),
        scope: Seq::empty(),
        msg: Seq::empty(),
        timestamp: Seq::empty(),
        level: Seq::empty(),
        app: Seq::empty(),
        year: Seq::empty(),
        month: Seq::empty(),
        day: Seq::empty(),
    }
}

impl FormatValues {
    /// All values empty.
    pub fn new() -> (r: FormatValues)
        ensures
            r@ == empty_values(),
    {
        FormatValues {
            tag: String::new(),
            icon: String::new(),
            scope: String::new(),
            msg: String::new(),
            timestamp: String::new(),
            level: String::new(),
            app: String::new(),
            year: String::new(),
            month: String::new(),
            day: String::new(),
        }
    }

    /// A copy with the same values.
    pub fn deep_copy(&self) -> (r: FormatValues)
        ensures
            r@ == self@,
    {
        FormatValues {
            tag: self.tag.clone(),
            icon: self.icon.clone(),
            scope: self.scope.clone(),
            msg: self.msg.clone(),
            timestamp: self.timestamp.clone(),
            level: self.level.clone(),
            app: self.app.clone(),
            year: self.year.clone(),
            month: self.month.clone(),
            day: self.day.clone(),
        }
    }

    /// Sets the `{tag}` value.
    pub fn tag(self, tag: &str) -> (r: FormatValues)
        ensures
            r@ == (FormatValuesView { tag: tag@, ..self@ }),
    {
        FormatValues { tag: owned(tag), ..self }
    }

    /// Sets the `{icon}` value.
    pub fn icon(self, icon: &str) -> (r: FormatValues)
        ensures
            r@ == (FormatValuesView { icon: icon@, ..self@ }),
    {
        FormatValues { icon: owned(icon), ..self }
    }

    /// Sets the `{scope}` value.
    pub fn scope(self, scope: &str) -> (r: FormatValues)
        ensures
            r@ == (FormatValuesView { scope: scope@, ..self@ }),
    {
        FormatValues { scope: owned(scope), ..self }
    }

    /// Sets the `{msg}` value.
    pub fn msg(self, msg: &str) -> (r: FormatValues)
        ensures
            r@ == (FormatValuesView { msg: msg@, ..self@ }),
    {
        FormatValues { msg: owned(msg), ..self }
    }

    /// Sets the `{timestamp}` value.
    pub fn timestamp(self, timestamp: &str) -> (r: FormatValues)
        ensures
            r@ == (FormatValuesView { timestamp: timestamp@, ..self@ }),
    {
        FormatValues { timestamp: owned(timestamp), ..self }
    }

    /// Sets the `{level}` value.
    pub fn level(self, level: &str) -> (r: FormatValues)
        ensures
            r@ == (FormatValuesView { level: level@, ..self@ }),
    {
        FormatValues { level: owned(level), ..self }
    }

    /// Sets the `{app}` value.
    pub fn app(self, app: &str) -> (r: FormatValues)
        ensures
            r@ == (FormatValuesView { app: app@, ..self@ }),
    {
        FormatValues { app: owned(app), ..self }
    }

    /// Sets the `{year}`, `{month}` and `{day}` values.
    pub fn date(self, year: &str, month: &str, day: &str) -> (r: FormatValues)
        ensures
            r@ == (FormatValuesView { year: year@, month: month@, day: day@, ..self@ }),
    {
        FormatValues { year: owned(year), month: owned(month), day: owned(day), ..self }
    }
}

impl Default for FormatValues {
    fn default() -> (r: FormatValues)
        ensures
            r@ == empty_values(),
    {
        FormatValues::new()
    }
}

/// The values that fill each placeholder with its own text, `{name}`.
pub open spec fn placeholder_texts() -> FormatValuesView {
    FormatValuesView {
        tag: "{"@ + "tag"@ + "}"@,
        icon: "{"@ + "icon"@ + "}"@,
        scope: "{"@ + "scope"@ + "}"@,
        msg: "{"@ + "msg"@ + "}"@,
        timestamp: "{"@ + "timestamp"@ + "}"@,
        level: "{"@ + "level"@ + "}"@,
        app: "{"@ + "app"@ + "}"@,
        year: "{"@ + "year"@ + "}"@,
        month: "{"@ + "month"@ + "}"@,
        day: "{"@ + "day"@ + "}"@,
    }
}

proof fn lemma_render_concat(a: Seq<FormatSegmentView>, b: Seq<FormatSegmentView>, v: FormatValuesView)
    ensures
        spec_render_template(a + b, v) == spec_render_template(a, v) + spec_render_template(b, v),
    decreases b.len(),
{
    if b.len() == 0 {
        assert(a + b =~= a);
        assert(spec_render_template(a, v) + Seq::<char>::empty() =~= spec_render_template(a, v));
    } else {
        assert((a + b).drop_last() =~= a + b.drop_last());
        lemma_render_concat(a, b.drop_last(), v);
        let last = match b.last() {
            FormatSegmentView::Literal(t) => t,
            FormatSegmentView::Placeholder(p) => value_of(v, p),
        };
        assert(spec_render_template(a, v) + spec_render_template(b.drop_last(), v) + last
            =~= spec_render_template(a, v) + (spec_render_template(b.drop_last(), v) + last));
    }
}

proof fn lemma_render_one(seg: FormatSegmentView, v: FormatValuesView)
    ensures
        spec_render_template(seq![seg], v) == match seg {
            FormatSegmentView::Literal(t) => t,
            FormatSegmentView::Placeholder(p) => value_of(v, p),
        },
{
    assert(seq![seg].drop_last() =~= Seq::<FormatSegmentView>::empty());
    assert(seq![seg].last() == seg);
    assert(spec_render_template(Seq::<FormatSegmentView>::empty(), v) == Seq::<char>::empty());
    let x = match seg {
        FormatSegmentView::Literal(t) => t,
        FormatSegmentView::Placeholder(p) => value_of(v, p),
    };
    assert(Seq::<char>::empty() + x =~= x);
}

proof fn lemma_round_trip_from(t: Seq<char>, i: int, cur: Seq<char>)
    requires
        0 <= i <= t.len(),
    ensures
        spec_render_template(parse_template_from(t, i, cur), placeholder_texts()) == cur + t.subrange(i, t.len() as int),
    decreases t.len() - i,
{
    let v = placeholder_texts();
    if i >= t.len() {
        assert(t.subrange(i, t.len() as int) =~= Seq::<char>::empty());
        assert(cur + Seq::<char>::empty() =~= cur);
        if cur.len() > 0 {
            lemma_render_one(FormatSegmentView::Literal(cur), v);
        }
    } else if t[i] == '{' && find_char_from(t, '}', i) is Some && i < find_char_from(t, '}', i).unwrap() < t.len() {
        crate::text::lemma_find_char_from(t, '}', i);
        let e = find_char_from(t, '}', i).unwrap();
        let name = t.subrange(i + 1, e);
        let seg = match spec_match_placeholder(name) {
            Some(p) => FormatSegmentView::Placeholder(p),
            None => FormatSegmentView::Literal("{"@ + name + "}"@),
        };
        lemma_round_trip_from(t, e + 1, Seq::empty());
        lemma_render_concat(flush(cur) + seq![seg], parse_template_from(t, e + 1, Seq::empty()), v);
        lemma_render_concat(flush(cur), seq![seg], v);
        lemma_render_one(seg, v);
        if cur.len() > 0 {
            lemma_render_one(FormatSegmentView::Literal(cur), v);
        }
        assert(spec_render_template(flush(cur), v) == cur);
        assert(spec_render_template(seq![seg], v) == "{"@ + name + "}"@);
        reveal_strlit("{");
        reveal_strlit("}");
        assert(Seq::<char>::empty() + t.subrange(e + 1, t.len() as int) =~= t.subrange(e + 1, t.len() as int));
        assert(cur + ("{"@ + name + "}"@) + t.subrange(e + 1, t.len() as int) =~= cur + t.subrange(i, t.len() as int));
    } else {
        lemma_round_trip_from(t, i + 1, cur.push(t[i]));
        assert(cur.push(t[i]) + t.subrange(i + 1, t.len() as int) =~= cur + t.subrange(i, t.len() as int));
    }
}

/// Parsing loses no text: rendering a parsed template with every placeholder
/// filled by its own `{name}` gives the template back (unknown names, unclosed
/// braces and all other text pass through as literals).
pub proof fn law_template_round_trip(t: Seq<char>)
    ensures
        spec_render_template(spec_parse_template(t), placeholder_texts()) == t,
{
    lemma_round_trip_from(t, 0, Seq::empty());
    assert(Seq::<char>::empty() + t.subrange(0, t.len() as int) =~= t);
}

} // verus!
