//! Per-level icons in three families: NerdFont glyphs, ASCII markers, or none.
use crate::level::{Level, LevelStrings};
use crate::text::owned;
use vstd::prelude::*;

verus! {

/// Which glyph family is in use.
#[derive(Debug, Clone, Copy, PartialEq, Eq, Structural)]
pub enum IconType {
    /// NerdFont glyphs.
    NerdFont,
    /// ASCII markers such as `[i]`.
    Ascii,
    /// No icons at all.
    Disabled,
}

impl Default for IconType {
    fn default() -> (r: IconType)
        ensures
            r == IconType::NerdFont,
    {
        IconType::NerdFont
    }
}

/// The built-in icon of a level in a family.
pub open spec fn builtin_icon(t: IconType, l: Level) -> Option<Seq<char>> {
    match t {
        IconType::NerdFont => Some(
            match l {
                Level::Trace => "\u{f188}"@,
                Level::Debug => "\u{f188}"@,
                Level::Info => "\u{f05a}"@,
                Level::Warn => "\u{f071}"@,
                Level::Error => "\u{f057}"@,
            },
        ),
        IconType::Ascii => Some(
            match l {
                Level::Trace => "[~]"@,
                Level::Debug => "[.]"@,
                Level::Info => "[i]"@,
                Level::Warn => "[!]"@,
                Level::Error => "[x]"@,
            },
        ),
        IconType::Disabled => None,
    }
}

/// The built-in icon table of a family.
pub open spec fn builtin_icons(t: IconType) -> Map<Level, Seq<char>> {
    Map::new(|l: Level| builtin_icon(t, l) is Some, |l: Level| builtin_icon(t, l).unwrap())
}

/// The icon glyphs of each level, with the family they come from.
pub struct IconSet {
    icons: LevelStrings,
    icon_type: IconType,
}

/// The value of an icon set.
pub struct IconSetView {
    pub icons: Map<Level, Seq<char>>,
    pub icon_type: IconType,
}

impl View for IconSet {
    type V = IconSetView;

    closed spec fn view(&self) -> IconSetView {
        IconSetView { icons: self.icons@, icon_type: self.icon_type }
    }
}

impl IconSet {
    /// The built-in set of a family.
    pub fn from_type(icon_type: IconType) -> (r: IconSet)
        ensures
            r@.icons == builtin_icons(icon_type),
            r@.icon_type == icon_type,
    {
        let mut icons = LevelStrings::new();
        match icon_type {
            IconType::NerdFont => {
                icons.insert(Level::Trace, owned("\u{f188}"));
                icons.insert(Level::Debug, owned("\u{f188}"));
                icons.insert(Level::Info, owned("\u{f05a}"));
                icons.insert(Level::Warn, owned("\u{f071}"));
                icons.insert(Level::Error, owned("\u{f057}"));
            },
            IconType::Ascii => {
                icons.insert(Level::Trace, owned("[~]"));
                icons.insert(Level::Debug, owned("[.]"));
                icons.insert(Level::Info, owned("[i]"));
                icons.insert(Level::Warn, owned("[!]"));
                icons.insert(Level::Error, owned("[x]"));
            },
            IconType::Disabled => {},
        }
        let r = IconSet { icons, icon_type };
        assert(r@.icons =~= builtin_icons(icon_type));
        r
    }

    /// NerdFont glyphs.
    pub fn nerdfont() -> (r: IconSet)
        ensures
            r@.icons == builtin_icons(IconType::NerdFont),
            r@.icon_type == IconType::NerdFont,
    {
        IconSet::from_type(IconType::NerdFont)
    }

    /// ASCII markers.
    pub fn ascii() -> (r: IconSet)
        ensures
            r@.icons == builtin_icons(IconType::Ascii),
            r@.icon_type == IconType::Ascii,
    {
        IconSet::from_type(IconType::Ascii)
    }

    /// No icons.
    pub fn none() -> (r: IconSet)
        ensures
            r@.icons == Map::<Level, Seq<char>>::empty(),
            r@.icon_type == IconType::Disabled,
    {
        let r = IconSet::from_type(IconType::Disabled);
        assert(r@.icons =~= Map::<Level, Seq<char>>::empty());
        r
    }

    /// The icon of a level, empty when the set has none.
    pub fn get(&self, level: Level) -> (r: &str)
        ensures
            r@ == (if self@.icons.contains_key(level) {
                self@.icons[level]
            } else {
                Seq::empty()
            }),
    {
        match self.icons.get(level) {
            Some(s) => s.as_str(),
            None => {
                let e = "";
                assert(e@.len() == 0) by {
                    reveal_strlit("");
                }
                assert(e@ =~= Seq::<char>::empty());
                e
            },
        }
    }

    /// Overrides the icon of a level.
    pub fn set(&mut self, level: Level, icon: &str)
        ensures
            final(self)@.icons == old(self)@.icons.insert(level, icon@),
            final(self)@.icon_type == old(self)@.icon_type,
    {
        self.icons.insert(level, owned(icon));
    }

    /// The family the set was built from.
    pub fn icon_type(&self) -> (r: IconType)
        ensures
            r == self@.icon_type,
    {
        self.icon_type
    }

    /// A copy with the same icons.
    pub fn deep_copy(&self) -> (r: IconSet)
        ensures
            r@ == self@,
    {
        IconSet { icons: self.icons.deep_copy(), icon_type: self.icon_type }
    }
}

impl Default for IconSet {
    fn default() -> (r: IconSet)
        ensures
            r@.icons == builtin_icons(IconType::NerdFont),
            r@.icon_type == IconType::NerdFont,
    {
        IconSet::nerdfont()
    }
}

} // verus!
