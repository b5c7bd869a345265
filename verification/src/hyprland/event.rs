//! Hyprland socket2 events: `EVENT>>DATA` lines split into name and payload.
use crate::text::{chars_of, owned, push_str, split_once_str, split_once_sub, string_of, trim, trim_chars};
use vstd::prelude::*;

verus! {

/// A compositor event: its wire name and raw payload.
#[derive(Debug, Clone, PartialEq, Eq)]
pub struct HyprlandEvent {
    /// The event name (`openwindow`, `workspace`, …).
    pub name: String,
    /// The payload after `>>`, comma-separated fields or empty.
    pub data: String,
}

/// The value of an event.
pub struct HyprlandEventView {
    pub name: Seq<char>,
    pub data: Seq<char>,
}

impl View for HyprlandEvent {
    type V = HyprlandEventView;

    open spec fn view(&self) -> HyprlandEventView {
        HyprlandEventView { name: self.name@, data: self.data@ }
    }
}

/// The (name, data) of a wire line: the line is trimmed and split at the first
/// `>>`; the name is trimmed and must not be empty; the data is kept as is.
pub open spec fn spec_parse_event(line: Seq<char>) -> Option<(Seq<char>, Seq<char>)> {
    match split_once_sub(trim(line), ">>"@) {
        Some((raw_name, raw_data)) => {
            let name = trim(raw_name);
            if name.len() == 0 {
                None
            } else {
                Some((name, raw_data))
            }
        },
        None => None,
    }
}

/// `name` alone when the data is empty, else `name: data`.
pub open spec fn spec_format_message(e: HyprlandEventView) -> Seq<char> {
    if e.data.len() == 0 {
        e.name
    } else {
        e.name + ": "@ + e.data
    }
}

impl HyprlandEvent {
    /// Parses one `EVENT>>DATA` line.
    pub fn parse(line: &str) -> (r: Option<HyprlandEvent>)
        ensures
            match (r, spec_parse_event(line@)) {
                (Some(e), Some((n, d))) => e@.name == n && e@.data == d,
                (None, None) => true,
                _ => false,
            },
    {
        let v = chars_of(line);
        let t = trim_chars(&v);
        match split_once_str(&t, ">>") {
            Some((raw_name, raw_data)) => {
                let name = trim_chars(&raw_name);
                if name.len() == 0 {
                    None
                } else {
                    Some(HyprlandEvent { name: string_of(&name), data: string_of(&raw_data) })
                }
            },
            None => None,
        }
    }

    /// A copy of the event.
    pub fn deep_copy(&self) -> (r: HyprlandEvent)
        ensures
            r@ == self@,
    {
        HyprlandEvent { name: self.name.clone(), data: self.data.clone() }
    }

    /// The raw wire form for display: `name` or `name: data`.
    pub fn format_message(&self) -> (r: String)
        ensures
            r@ == spec_format_message(self@),
    {
        if self.data.as_str().is_empty() {
            return self.name.clone();
        }
        let mut v = chars_of(self.name.as_str());
        push_str(&mut v, ": ");
        push_str(&mut v, self.data.as_str());
        string_of(&v)
    }
}

} // verus!
