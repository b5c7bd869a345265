//! Severity of compositor events: window lifecycle is Info, focus and layout
//! noise is Debug, `urgent` is Warn, and users can override any of them.
use crate::level::Level;
use crate::strmap::StrMap;
use crate::text::owned;
use vstd::prelude::*;

verus! {

/// The built-in event → level table.
pub open spec fn default_levels() -> Map<Seq<char>, Level> {
    Map::empty()
        .insert("openwindow"@, Level::Info)
        .insert("closewindow"@, Level::Info)
        .insert("movewindow"@, Level::Info)
        .insert("workspace"@, Level::Info)
        .insert("createworkspace"@, Level::Info)
        .insert("destroyworkspace"@, Level::Info)
        .insert("moveworkspace"@, Level::Info)
        .insert("renameworkspace"@, Level::Info)
        .insert("monitoradded"@, Level::Info)
        .insert("monitorremoved"@, Level::Info)
        .insert("submap"@, Level::Info)
        .insert("activewindow"@, Level::Debug)
        .insert("activewindowv2"@, Level::Debug)
        .insert("focusedmon"@, Level::Debug)
        .insert("activelayout"@, Level::Debug)
        .insert("fullscreen"@, Level::Debug)
        .insert("changefloatingmode"@, Level::Debug)
        .insert("configreloaded"@, Level::Debug)
        .insert("openlayer"@, Level::Debug)
        .insert("closelayer"@, Level::Debug)
        .insert("screencast"@, Level::Debug)
        .insert("pin"@, Level::Debug)
        .insert("urgent"@, Level::Warn)
}

/// The level of an event: a user override that names a level wins, then the
/// built-in table, and any other event is Info.
pub open spec fn spec_resolve_level(name: Seq<char>, overrides: Map<Seq<char>, Seq<char>>) -> Level {
    if overrides.contains_key(name) && Level::spec_parse(overrides[name]) is Some {
        Level::spec_parse(overrides[name]).unwrap()
    } else if default_levels().contains_key(name) {
        default_levels()[name]
    } else {
        Level::Info
    }
}

/// The built-in event → level table.
pub fn default_level_map() -> (r: StrMap<Level>)
    ensures
        r@ == default_levels(),
{
    let mut m: StrMap<Level> = StrMap::new();
    m.insert(owned("openwindow"), Level::Info);
    m.insert(owned("closewindow"), Level::Info);
    m.insert(owned("movewindow"), Level::Info);
    m.insert(owned("workspace"), Level::Info);
    m.insert(owned("createworkspace"), Level::Info);
    m.insert(owned("destroyworkspace"), Level::Info);
    m.insert(owned("moveworkspace"), Level::Info);
    m.insert(owned("renameworkspace"), Level::Info);
    m.insert(owned("monitoradded"), Level::Info);
    m.insert(owned("monitorremoved"), Level::Info);
    m.insert(owned("submap"), Level::Info);
    m.insert(owned("activewindow"), Level::Debug);
    m.insert(owned("activewindowv2"), Level::Debug);
    m.insert(owned("focusedmon"), Level::Debug);
    m.insert(owned("activelayout"), Level::Debug);
    m.insert(owned("fullscreen"), Level::Debug);
    m.insert(owned("changefloatingmode"), Level::Debug);
    m.insert(owned("configreloaded"), Level::Debug);
    m.insert(owned("openlayer"), Level::Debug);
    m.insert(owned("closelayer"), Level::Debug);
    m.insert(owned("screencast"), Level::Debug);
    m.insert(owned("pin"), Level::Debug);
    m.insert(owned("urgent"), Level::Warn);
    m
}

/// The level an event is logged at, given the user's event → level-name overrides.
pub fn resolve_level(event_name: &str, user_overrides: &StrMap<String>) -> (r: Level)
    ensures
        r == spec_resolve_level(event_name@, user_overrides@),
{
    if let Some(level_str) = user_overrides.get(event_name) {
        if let Ok(level) = Level::parse(level_str.as_str()) {
            return level;
        }
    }
    let defaults = default_level_map();
    match defaults.get(event_name) {
        Some(l) => *l,
        None => Level::Info,
    }
}

} // verus!
