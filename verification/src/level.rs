//! Severity levels that gate which messages reach which outputs.
use crate::text::{chars_eq_str, chars_of, owned, push_str, lowercased, string_of, to_lowercase};
use vstd::prelude::*;

verus! {

/// Severity of a log message, ordered from least to most severe.
#[derive(Debug, Clone, Copy, PartialEq, Eq, Structural, PartialOrd, Ord, Hash)]
pub enum Level {
    /// High-volume instrumentation that would be too noisy outside of development.
    Trace,
    /// Startup, teardown, and state-change details useful for diagnosing issues.
    Debug,
    /// Normal operational milestones.
    Info,
    /// Non-fatal anomalies that may need attention.
    Warn,
    /// Unrecoverable failures that prevent the operation from completing.
    Error,
}

impl Level {
    /// Position of the level in the severity order (Trace = 0 … Error = 4).
    pub open spec fn rank(self) -> nat {
        match self {
            Level::Trace => 0,
            Level::Debug => 1,
            Level::Info => 2,
            Level::Warn => 3,
            Level::Error => 4,
        }
    }

    /// The lowercase name of the level.
    pub open spec fn name(self) -> Seq<char> {
        match self {
            Level::Trace => "trace"@,
            Level::Debug => "debug"@,
            Level::Info => "info"@,
            Level::Warn => "warn"@,
            Level::Error => "error"@,
        }
    }

    /// Position of the level in the severity order.
    pub fn severity(self) -> (r: u8)
        ensures
            r as nat == self.rank(),
    {
        match self {
            Level::Trace => 0,
            Level::Debug => 1,
            Level::Info => 2,
            Level::Warn => 3,
            Level::Error => 4,
        }
    }

    /// Whether this level is at least as severe as `min`.
    pub fn at_least(self, min: Level) -> (r: bool)
        ensures
            r == (self.rank() >= min.rank()),
    {
        self.severity() >= min.severity()
    }

    /// Lowercase name, as used in config files and on the command line.
    pub fn as_str(self) -> (r: &'static str)
        ensures
            r@ == self.name(),
    {
        match self {
            Level::Trace => "trace",
            Level::Debug => "debug",
            Level::Info => "info",
            Level::Warn => "warn",
            Level::Error => "error",
        }
    }

    /// All levels in severity order.
    pub fn all() -> (r: [Level; 5])
        ensures
            r@ == seq![Level::Trace, Level::Debug, Level::Info, Level::Warn, Level::Error],
    {
        [Level::Trace, Level::Debug, Level::Info, Level::Warn, Level::Error]
    }

    /// The level named by an already lowercased string, accepting the aliases
    /// `warning` and `err`.
    pub open spec fn spec_from_lower(s: Seq<char>) -> Option<Level> {
        if s == "trace"@ {
            Some(Level::Trace)
        } else if s == "debug"@ {
            Some(Level::Debug)
        } else if s == "info"@ {
            Some(Level::Info)
        } else if s == "warn"@ || s == "warning"@ {
            Some(Level::Warn)
        } else if s == "error"@ || s == "err"@ {
            Some(Level::Error)
        } else {
            None
        }
    }

    /// The level named by a string, compared case-insensitively (`FromStr` for `Level`).
    pub open spec fn spec_parse(s: Seq<char>) -> Option<Level> {
        Level::spec_from_lower(lowercased(s))
    }

    /// Maps an already lowercased name to its level.
    pub fn from_lower(s: &str) -> (r: Option<Level>)
        ensures
            r == Level::spec_from_lower(s@),
    {
        let v = chars_of(s);
        if chars_eq_str(&v, "trace") {
            Some(Level::Trace)
        } else if chars_eq_str(&v, "debug") {
            Some(Level::Debug)
        } else if chars_eq_str(&v, "info") {
            Some(Level::Info)
        } else if chars_eq_str(&v, "warn") || chars_eq_str(&v, "warning") {
            Some(Level::Warn)
        } else if chars_eq_str(&v, "error") || chars_eq_str(&v, "err") {
            Some(Level::Error)
        } else {
            None
        }
    }

    /// Parses a level name case-insensitively; unknown names give an error that
    /// carries the original input.
    pub fn parse(s: &str) -> (r: Result<Level, ParseLevelError>)
        ensures
            match r {
                Ok(l) => Level::spec_parse(s@) == Some(l),
                Err(e) => Level::spec_parse(s@) is None && e.0@ == s@,
            },
    {
        let lower = to_lowercase(s);
        match Level::from_lower(lower.as_str()) {
            Some(l) => Ok(l),
            None => Err(ParseLevelError(owned(s))),
        }
    }
}

impl Default for Level {
    fn default() -> (r: Level)
        ensures
            r == Level::Info,
    {
        Level::Info
    }
}

/// Error for a string that names no level; it carries the rejected input.
#[derive(Debug, Clone, PartialEq, Eq)]
pub struct ParseLevelError(pub String);

impl ParseLevelError {
    /// The human-readable error message.
    pub fn message(&self) -> (r: String)
        ensures
            r@ == "unknown log level: '"@ + self.0@ + "'"@,
    {
        let mut v: Vec<char> = Vec::new();
        push_str(&mut v, "unknown log level: '");
        push_str(&mut v, self.0.as_str());
        push_str(&mut v, "'");
        assert(v@ =~= "unknown log level: '"@ + self.0@ + "'"@);
        string_of(&v)
    }
}

/// A value of type `String` for some levels (a per-level table of labels or icons).
pub struct LevelStrings {
    slots: Vec<Option<String>>,
}

/// The view of a table slot.
pub open spec fn slot_view(s: Option<String>) -> Option<Seq<char>> {
    match s {
        Some(x) => Some(x@),
        None => None,
    }
}

fn empty_slots() -> (r: Vec<Option<String>>)
    ensures
        r@.len() == 5,
        forall|i: int| 0 <= i < 5 ==> r@[i] is None,
{
    let mut slots: Vec<Option<String>> = Vec::new();
    slots.push(None);
    slots.push(None);
    slots.push(None);
    slots.push(None);
    slots.push(None);
    slots
}

impl LevelStrings {
    #[verifier::type_invariant]
    closed spec fn inv(self) -> bool {
        self.slots@.len() == 5
    }

    closed spec fn slot(&self, l: Level) -> Option<Seq<char>> {
        slot_view(self.slots@[l.rank() as int])
    }

    /// An empty table.
    pub fn new() -> (r: LevelStrings)
        ensures
            r@ == Map::<Level, Seq<char>>::empty(),
    {
        let r = LevelStrings { slots: empty_slots() };
        assert(r@ =~= Map::<Level, Seq<char>>::empty());
        r
    }

    /// The entry for `level`.
    pub fn get(&self, level: Level) -> (r: Option<&String>)
        ensures
            r is Some <==> self@.contains_key(level),
            r is Some ==> r.unwrap()@ == self@[level],
    {
        proof {
            use_type_invariant(self);
        }
        match &self.slots[level.severity() as usize] {
            Some(s) => Some(s),
            None => None,
        }
    }

    /// Sets the entry for `level`.
    pub fn insert(&mut self, level: Level, value: String)
        ensures
            final(self)@ == old(self)@.insert(level, value@),
    {
        proof {
            use_type_invariant(&*self);
        }
        let mut slots: Vec<Option<String>> = empty_slots();
        std::mem::swap(&mut slots, &mut self.slots);
        let ghost old_slots = slots@;
        let ghost vv = value@;
        slots.set(level.severity() as usize, Some(value));
        self.slots = slots;
        assert(self@ =~= old(self)@.insert(level, vv)) by {
            assert forall|l: Level| l != level implies self.slot(l) == old(self).slot(l) by {
                assert(l.rank() != level.rank());
            }
        }
    }

    /// A copy with the same entries.
    pub fn deep_copy(&self) -> (r: LevelStrings)
        ensures
            r@ == self@,
    {
        proof {
            use_type_invariant(self);
        }
        let mut slots: Vec<Option<String>> = Vec::new();
        let mut i: usize = 0;
        while i < 5
            invariant
                i <= 5,
                self.slots@.len() == 5,
                slots@.len() == i,
                forall|j: int| 0 <= j < i ==> slot_view(#[trigger] slots@[j]) == slot_view(self.slots@[j]),
            decreases 5 - i,
        {
            let s = crate::text::copy_opt_string(&self.slots[i]);
            slots.push(s);
            i = i + 1;
        }
        let r = LevelStrings { slots };
        assert(r@ =~= self@);
        r
    }
}

impl View for LevelStrings {
    type V = Map<Level, Seq<char>>;

    closed spec fn view(&self) -> Map<Level, Seq<char>> {
        Map::new(|l: Level| self.slot(l) is Some, |l: Level| self.slot(l).unwrap())
    }
}

impl View for Level {
    type V = Level;

    open spec fn view(&self) -> Level {
        *self
    }
}

impl crate::strmap::DeepCopy for Level {
    fn deep_copy(&self) -> (r: Level) {
        *self
    }
}

impl std::str::FromStr for Level {
    type Err = ParseLevelError;

    fn from_str(s: &str) -> (r: Result<Self, Self::Err>)
        ensures
            match r {
                Ok(l) => Level::spec_parse(s@) == Some(l),
                Err(e) => Level::spec_parse(s@) is None && e.0@ == s@,
            },
    {
        Level::parse(s)
    }
}

} // verus!
