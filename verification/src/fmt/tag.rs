//! Level tags such as `[INFO]`: casing, padding, alignment and delimiters.
use crate::level::{Level, LevelStrings};
use crate::text::{
    ascii_lower, ascii_lower_seq, ascii_upper, ascii_upper_seq, char_to_uppercase,
    char_uppercased, chars_of, is_ascii_char, is_ascii_chars, lowercased, owned, push_str,
    string_of, substring, to_lowercase, to_uppercase, uppercased,
};
use vstd::prelude::*;

verus! {

/// Casing applied to a tag, scope or message.
#[derive(Debug, Clone, Copy, PartialEq, Eq, Structural)]
pub enum Transform {
    /// Leave the text as it is.
    Unchanged,
    /// Full Unicode uppercase.
    Uppercase,
    /// Full Unicode lowercase.
    Lowercase,
    /// First character uppercased, the rest lowercased.
    Capitalize,
}

/// The text a transform produces.
pub open spec fn spec_apply(t: Transform, s: Seq<char>) -> Seq<char> {
    match t {
        Transform::Unchanged => s,
        Transform::Uppercase => uppercased(s),
        Transform::Lowercase => lowercased(s),
        Transform::Capitalize => if s.len() == 0 {
            Seq::empty()
        } else {
            char_uppercased(s[0]) + lowercased(s.drop_first())
        },
    }
}

impl Transform {
    /// Applies the casing to `s`.
    pub fn apply(self, s: &str) -> (r: String)
        ensures
            r@ == spec_apply(self, s@),
    {
        match self {
            Transform::Unchanged => owned(s),
            Transform::Uppercase => to_uppercase(s),
            Transform::Lowercase => to_lowercase(s),
            Transform::Capitalize => {
                let v = chars_of(s);
                if v.len() == 0 {
                    return String::new();
                }
                let first = char_to_uppercase(v[0]);
                let rest = substring(&v, 1, v.len());
                let rest_lower = to_lowercase(rest.as_str());
                let mut out = chars_of(first.as_str());
                push_str(&mut out, rest_lower.as_str());
                assert(v@.subrange(1, v@.len() as int) =~= v@.drop_first());
                string_of(&out)
            },
        }
    }
}

/// Case changes of one ASCII character stay ASCII and settle after one step.
proof fn lemma_ascii_case_char(c: char)
    requires
        is_ascii_char(c),
    ensures
        is_ascii_char(ascii_lower(c)),
        is_ascii_char(ascii_upper(c)),
        ascii_lower(ascii_lower(c)) == ascii_lower(c),
        ascii_upper(ascii_upper(c)) == ascii_upper(c),
        ascii_lower(ascii_upper(c)) == ascii_lower(c),
{
}

/// ASCII lowercase of ASCII text is ASCII, settled, and blind to the case it came in.
proof fn lemma_ascii_lower_seq(s: Seq<char>)
    requires
        is_ascii_chars(s),
    ensures
        is_ascii_chars(ascii_lower_seq(s)),
        ascii_lower_seq(ascii_lower_seq(s)) == ascii_lower_seq(s),
        ascii_lower_seq(ascii_upper_seq(s)) == ascii_lower_seq(s),
        is_ascii_chars(ascii_upper_seq(s)),
        ascii_upper_seq(ascii_upper_seq(s)) == ascii_upper_seq(s),
{
    assert forall|i: int| 0 <= i < s.len() implies #[trigger] is_ascii_char(
        ascii_lower_seq(s)[i],
    ) && is_ascii_char(ascii_upper_seq(s)[i]) && ascii_lower(ascii_lower(s[i])) == ascii_lower(s[i])
        && ascii_upper(ascii_upper(s[i])) == ascii_upper(s[i]) && ascii_lower(ascii_upper(s[i]))
        == ascii_lower(s[i]) by {
        lemma_ascii_case_char(s[i]);
    }
    assert(ascii_lower_seq(ascii_lower_seq(s)) =~= ascii_lower_seq(s));
    assert(ascii_lower_seq(ascii_upper_seq(s)) =~= ascii_lower_seq(s));
    assert(ascii_upper_seq(ascii_upper_seq(s)) =~= ascii_upper_seq(s));
}

/// On ASCII text every transform keeps the length, changes nothing but the
/// case of letters (the result equals the input ignoring ASCII case), gives
/// ASCII text back, and a second application changes nothing more.
pub proof fn law_transform_ascii(t: Transform, s: Seq<char>)
    requires
        is_ascii_chars(s),
    ensures
        is_ascii_chars(spec_apply(t, s)),
        spec_apply(t, s).len() == s.len(),
        ascii_lower_seq(spec_apply(t, s)) == ascii_lower_seq(s),
        spec_apply(t, spec_apply(t, s)) == spec_apply(t, s),
{
    lemma_ascii_lower_seq(s);
    match t {
        Transform::Unchanged => {},
        Transform::Uppercase => {},
        Transform::Lowercase => {},
        Transform::Capitalize => {
            if s.len() > 0 {
                let rest = s.drop_first();
                assert(is_ascii_chars(rest)) by {
                    assert forall|i: int| 0 <= i < rest.len() implies is_ascii_char(
                        #[trigger] rest[i],
                    ) by {
                        assert(rest[i] == s[i + 1]);
                    }
                }
                assert(is_ascii_char(s[0]));
                lemma_ascii_case_char(s[0]);
                lemma_ascii_lower_seq(rest);
                let r = seq![ascii_upper(s[0])] + ascii_lower_seq(rest);
                assert(spec_apply(t, s) == r);
                assert(is_ascii_chars(r)) by {
                    assert forall|i: int| 0 <= i < r.len() implies is_ascii_char(#[trigger] r[i]) by {
                        if i > 0 {
                            assert(r[i] == ascii_lower_seq(rest)[i - 1]);
                        }
                    }
                }
                assert(r.drop_first() =~= ascii_lower_seq(rest));
                assert(r[0] == ascii_upper(s[0]));
                assert(spec_apply(t, r) =~= r);
                assert(ascii_lower_seq(r) =~= ascii_lower_seq(s)) by {
                    assert forall|i: int| 0 <= i < s.len() implies #[trigger] ascii_lower_seq(r)[i]
                        == ascii_lower_seq(s)[i] by {
                        if i > 0 {
                            assert(r[i] == ascii_lower_seq(rest)[i - 1]);
                            assert(rest[i - 1] == s[i]);
                            lemma_ascii_case_char(s[i]);
                        }
                    }
                }
            }
        },
    }
}

impl Default for Transform {
    fn default() -> (r: Transform)
        ensures
            r == Transform::Unchanged,
    {
        Transform::Unchanged
    }
}

/// Placement of text inside a padded column.
#[derive(Debug, Clone, Copy, PartialEq, Eq, Structural)]
pub enum Alignment {
    Left,
    Right,
    Center,
}

impl Default for Alignment {
    fn default() -> (r: Alignment)
        ensures
            r == Alignment::Center,
    {
        Alignment::Center
    }
}

/// `n` spaces.
pub open spec fn spaces(n: nat) -> Seq<char> {
    Seq::new(n, |i: int| ' ')
}

/// `s` padded with spaces to at least `width` characters.
pub open spec fn spec_pad(s: Seq<char>, width: nat, align: Alignment) -> Seq<char> {
    if s.len() >= width {
        s
    } else {
        let p = (width - s.len()) as nat;
        match align {
            Alignment::Left => s + spaces(p),
            Alignment::Right => spaces(p) + s,
            Alignment::Center => spaces(p / 2) + s + spaces((p - p / 2) as nat),
        }
    }
}

fn push_spaces(v: &mut Vec<char>, n: usize)
    ensures
        final(v)@ == old(v)@ + spaces(n as nat),
{
    let mut i: usize = 0;
    while i < n
        invariant
            i <= n,
            v@ == old(v)@ + spaces(i as nat),
        decreases n - i,
    {
        v.push(' ');
        i = i + 1;
        assert(spaces(i as nat) =~= spaces((i - 1) as nat).push(' '));
    }
}

/// Pads `s` with spaces to at least `width` characters.
pub fn pad(s: &str, width: usize, align: Alignment) -> (r: String)
    ensures
        r@ == spec_pad(s@, width as nat, align),
{
    let v = chars_of(s);
    if v.len() >= width {
        return string_of(&v);
    }
    let p = width - v.len();
    let mut out: Vec<char> = Vec::new();
    match align {
        Alignment::Left => {
            push_str(&mut out, s);
            push_spaces(&mut out, p);
        },
        Alignment::Right => {
            push_spaces(&mut out, p);
            push_str(&mut out, s);
        },
        Alignment::Center => {
            let left = p / 2;
            let right = p - left;
            push_spaces(&mut out, left);
            push_str(&mut out, s);
            push_spaces(&mut out, right);
        },
    }
    assert(out@ =~= spec_pad(s@, width as nat, align));
    string_of(&out)
}

/// How level tags look.
pub struct TagConfig {
    /// Opening delimiter.
    pub prefix: String,
    /// Closing delimiter.
    pub suffix: String,
    /// Casing of the label.
    pub transform: Transform,
    /// Minimum label width.
    pub min_width: usize,
    /// Placement of the label inside the width.
    pub alignment: Alignment,
    /// Custom labels replacing the level names.
    pub labels: LevelStrings,
}

/// The value of a tag configuration.
pub struct TagConfigView {
    pub prefix: Seq<char>,
    pub suffix: Seq<char>,
    pub transform: Transform,
    pub min_width: nat,
    pub alignment: Alignment,
    pub labels: Map<Level, Seq<char>>,
}

impl View for TagConfig {
    type V = TagConfigView;

    open spec fn view(&self) -> TagConfigView {
        TagConfigView {
            prefix: self.prefix@,
            suffix: self.suffix@,
            transform: self.transform,
            min_width: self.min_width as nat,
            alignment: self.alignment,
            labels: self.labels@,
        }
    }
}

/// A tag around an arbitrary label: transformed, padded, delimited.
pub open spec fn spec_tag_with_label(c: TagConfigView, label: Seq<char>) -> Seq<char> {
    c.prefix + spec_pad(spec_apply(c.transform, label), c.min_width, c.alignment) + c.suffix
}

/// The tag of a level: its custom label if one is set, else the level name.
pub open spec fn spec_format_tag(c: TagConfigView, level: Level) -> Seq<char> {
    let label = if c.labels.contains_key(level) {
        c.labels[level]
    } else {
        level.name()
    };
    spec_tag_with_label(c, label)
}

impl TagConfig {
    /// `[`, `]`, uppercase, width 5, centered, no custom labels.
    pub fn new() -> (r: TagConfig)
        ensures
            r@.prefix == "["@,
            r@.suffix == "]"@,
            r@.transform == Transform::Uppercase,
            r@.min_width == 5,
            r@.alignment == Alignment::Center,
            r@.labels == Map::<Level, Seq<char>>::empty(),
    {
        TagConfig {
            prefix: owned("["),
            suffix: owned("]"),
            transform: Transform::Uppercase,
            min_width: 5,
            alignment: Alignment::Center,
            labels: LevelStrings::new(),
        }
    }

    /// A copy with the same settings.
    pub fn deep_copy(&self) -> (r: TagConfig)
        ensures
            r@ == self@,
    {
        TagConfig {
            prefix: self.prefix.clone(),
            suffix: self.suffix.clone(),
            transform: self.transform,
            min_width: self.min_width,
            alignment: self.alignment,
            labels: self.labels.deep_copy(),
        }
    }

    /// Sets the opening delimiter.
    pub fn prefix(self, prefix: &str) -> (r: TagConfig)
        ensures
            r@ == (TagConfigView { prefix: prefix@, ..self@ }),
    {
        TagConfig { prefix: owned(prefix), ..self }
    }

    /// Sets the closing delimiter.
    pub fn suffix(self, suffix: &str) -> (r: TagConfig)
        ensures
            r@ == (TagConfigView { suffix: suffix@, ..self@ }),
    {
        TagConfig { suffix: owned(suffix), ..self }
    }

    /// Sets the casing.
    pub fn transform(self, transform: Transform) -> (r: TagConfig)
        ensures
            r@ == (TagConfigView { transform, ..self@ }),
    {
        TagConfig { transform, ..self }
    }

    /// Sets the minimum width.
    pub fn min_width(self, width: usize) -> (r: TagConfig)
        ensures
            r@ == (TagConfigView { min_width: width as nat, ..self@ }),
    {
        TagConfig { min_width: width, ..self }
    }

    /// Sets the alignment.
    pub fn alignment(self, alignment: Alignment) -> (r: TagConfig)
        ensures
            r@ == (TagConfigView { alignment, ..self@ }),
    {
        TagConfig { alignment, ..self }
    }

    /// Sets a custom label for one level.
    pub fn label(self, level: Level, label: &str) -> (r: TagConfig)
        ensures
            r@ == (TagConfigView { labels: self@.labels.insert(level, label@), ..self@ }),
    {
        let mut labels = self.labels;
        labels.insert(level, owned(label));
        TagConfig { labels, ..self }
    }

    /// The tag of a level.
    pub fn format(&self, level: Level) -> (r: String)
        ensures
            r@ == spec_format_tag(self@, level),
    {
        let label: &str = match self.labels.get(level) {
            Some(l) => l.as_str(),
            None => level.as_str(),
        };
        self.format_label(label)
    }

    /// A tag around an arbitrary label; the level is not used.
    pub fn format_with_label(&self, level: Level, label: &str) -> (r: String)
        ensures
            r@ == spec_tag_with_label(self@, label@),
    {
        self.format_label(label)
    }

    fn format_label(&self, label: &str) -> (r: String)
        ensures
            r@ == spec_tag_with_label(self@, label@),
    {
        let transformed = self.transform.apply(label);
        let padded = pad(transformed.as_str(), self.min_width, self.alignment);
        let mut v = chars_of(self.prefix.as_str());
        push_str(&mut v, padded.as_str());
        push_str(&mut v, self.suffix.as_str());
        string_of(&v)
    }
}

impl Default for TagConfig {
    fn default() -> (r: TagConfig)
        ensures
            r@.prefix == "["@,
            r@.suffix == "]"@,
            r@.transform == Transform::Uppercase,
            r@.min_width == 5,
            r@.alignment == Alignment::Center,
            r@.labels == Map::<Level, Seq<char>>::empty(),
    {
        TagConfig::new()
    }
}

} // verus!
