use hyprs_log::config::structs::HyprlandConfig;
use hyprs_log::hyprland::command::{
    dispatch_command, query_json_command, rolling_log_command, rolling_log_start, rolling_log_step,
    socket2_path,
};
use hyprs_log::hyprland::error::HyprlandError;
use hyprs_log::hyprland::event::HyprlandEvent;
use hyprs_log::hyprland::formatter::EventFormatter;
use hyprs_log::hyprland::level_map::{default_level_map, resolve_level};
use hyprs_log::hyprland::listener::{
    extract_app_scope, find_hypr_app_token, normalize_scope_candidate, nth_csv_field,
    resolve_event_scope, route_event,
};
use hyprs_log::level::Level;
use hyprs_log::strmap::StrMap;

fn ev(name: &str, data: &str) -> HyprlandEvent {
    HyprlandEvent { name: name.to_string(), data: data.to_string() }
}

#[test]
fn events_parse_from_wire_lines() {
    let e = HyprlandEvent::parse("openwindow>>80a0,1,kitty,Terminal").unwrap();
    assert_eq!(e, ev("openwindow", "80a0,1,kitty,Terminal"));
    let e = HyprlandEvent::parse("  workspace>>2 \n").unwrap();
    assert_eq!(e, ev("workspace", "2"));
    assert!(HyprlandEvent::parse("no separator").is_none());
    assert!(HyprlandEvent::parse(">>data").is_none());
    assert_eq!(ev("workspace", "2").format_message(), "workspace: 2");
    assert_eq!(ev("configreloaded", "").format_message(), "configreloaded");
}

#[test]
fn formatter_renders_readable_lines_and_remembers_windows() {
    let mut f = EventFormatter::new(true);
    let open = ev("openwindow", "80a0,1,Kitty,My Term");
    assert_eq!(f.format(&open), "window opened (openwindow): app=kitty title=\"My Term\" ws=1");
    f.observe(&open);
    let close = ev("closewindow", "80a0");
    assert_eq!(f.format(&close), "window closed (closewindow): app=kitty");
    f.observe(&close);
    assert_eq!(f.format(&close), "window closed (closewindow): 80a0");
    assert_eq!(f.format(&ev("fullscreen", "1")), "fullscreen toggled (fullscreen): enabled=true");
    assert_eq!(f.format(&ev("togglegroup", "1,a,b,c")), "group toggled (togglegroup): state=opened windows=3");
    assert_eq!(f.format(&ev("focusedmon", "DP-1,3")), "monitor focus (focusedmon): monitor=DP-1 workspace=3");
    assert_eq!(f.format(&ev("custom", "x")), "custom: x");
    assert_eq!(f.format(&ev("configreloaded", "")), "config reloaded");
    let raw = EventFormatter::new(false);
    assert_eq!(raw.format(&open), "openwindow: 80a0,1,Kitty,My Term");
}

#[test]
fn event_levels_default_and_override() {
    let none: StrMap<String> = StrMap::new();
    assert_eq!(default_level_map().len(), 23);
    assert_eq!(resolve_level("urgent", &none), Level::Warn);
    assert_eq!(resolve_level("activewindow", &none), Level::Debug);
    assert_eq!(resolve_level("openwindow", &none), Level::Info);
    assert_eq!(resolve_level("somethingelse", &none), Level::Info);
    let mut o: StrMap<String> = StrMap::new();
    o.insert("openwindow".to_string(), "ERROR".to_string());
    o.insert("urgent".to_string(), "loud".to_string());
    assert_eq!(resolve_level("openwindow", &o), Level::Error);
    assert_eq!(resolve_level("urgent", &o), Level::Warn);
}

#[test]
fn scope_candidates() {
    assert_eq!(nth_csv_field("a,b,c", 1).as_deref(), Some("b"));
    assert_eq!(nth_csv_field("a,b,c", 3), None);
    assert_eq!(nth_csv_field("", 0).as_deref(), Some(""));
    assert_eq!(normalize_scope_candidate(" Firefox ").as_deref(), Some("firefox"));
    assert_eq!(normalize_scope_candidate("DP-1"), None);
    assert_eq!(normalize_scope_candidate("edp-2"), None);
    assert_eq!(normalize_scope_candidate("12345"), None);
    assert_eq!(normalize_scope_candidate("abcdef"), None);
    assert_eq!(normalize_scope_candidate("beef").as_deref(), Some("beef"));
    assert_eq!(normalize_scope_candidate("   "), None);
    assert_eq!(find_hypr_app_token("class: Hyprpaper, pid 3").as_deref(), Some("hyprpaper"));
    assert_eq!(find_hypr_app_token("kitty,1"), None);
    assert_eq!(extract_app_scope(&ev("openwindow", "80a0,1,Kitty,T")).as_deref(), Some("kitty"));
    assert_eq!(extract_app_scope(&ev("activewindow", "Firefox,Title")).as_deref(), Some("firefox"));
    assert_eq!(extract_app_scope(&ev("workspace", "2")), None);
}

#[test]
fn event_scopes_resolve_in_order() {
    let mut c = HyprlandConfig::default();
    assert_eq!(resolve_event_scope(&c, &ev("custom", "x")), "hyprctl");
    assert_eq!(resolve_event_scope(&c, &ev("openwindow", "80a0,1,Kitty,T")), "kitty");
    assert_eq!(resolve_event_scope(&c, &ev("layer", "hyprlock")), "hyprlock");
    assert_eq!(resolve_event_scope(&c, &ev("workspace", "2")), "hyprland");
    c.event_scopes.insert("workspace".to_string(), "WS".to_string());
    assert_eq!(resolve_event_scope(&c, &ev("workspace", "2")), "WS");
}

#[test]
fn routing_filters_and_formats() {
    let mut c = HyprlandConfig::default();
    c.ignore_events.push("mousemove".to_string());
    let mut f = EventFormatter::new(true);
    assert!(route_event(&c, &mut f, &ev("mousemove", "1,2")).is_none());
    let line = route_event(&c, &mut f, &ev("openwindow", "80a0,1,Kitty,T")).unwrap();
    assert_eq!(line.level, Level::Info);
    assert_eq!(line.scope, "kitty");
    assert_eq!(line.message, "window opened (openwindow): app=kitty title=\"T\" ws=1");
    let line = route_event(&c, &mut f, &ev("closewindow", "80a0")).unwrap();
    assert_eq!(line.message, "window closed (closewindow): app=kitty");
    c.event_filter = Some(vec!["urgent".to_string()]);
    assert!(route_event(&c, &mut f, &ev("workspace", "2")).is_none());
    let line = route_event(&c, &mut f, &ev("urgent", "80a0")).unwrap();
    assert_eq!(line.level, Level::Warn);
}

#[test]
fn rolling_log_polls() {
    let (lines, len) = rolling_log_step(0, "a\n\n b \n");
    assert_eq!(lines, vec!["a".to_string(), "b".to_string()]);
    assert_eq!(len, 7);
    let (lines, len) = rolling_log_step(2, "a\nbc\n");
    assert_eq!(lines, vec!["bc".to_string()]);
    assert_eq!(len, 5);
    let (lines, len) = rolling_log_step(10, "x\ny");
    assert_eq!(lines, vec!["x".to_string(), "y".to_string()]);
    assert_eq!(len, 3);
    let (lines, len) = rolling_log_step(3, "abc");
    assert!(lines.is_empty());
    assert_eq!(len, 3);
    assert_eq!(rolling_log_start("héllo"), 6);
    // Positions are bytes: "ééé" is 6 bytes long.
    let (lines, len) = rolling_log_step(6, "éééabcd");
    assert_eq!(lines, vec!["abcd".to_string()]);
    assert_eq!(len, 10);
    let (lines, len) = rolling_log_step(7, "ééé");
    assert_eq!(lines, vec!["ééé".to_string()]);
    assert_eq!(len, 6);
}

#[test]
fn command_requests() {
    assert_eq!(query_json_command("clients"), "j/clients");
    assert_eq!(dispatch_command("workspace 2"), "dispatch workspace 2");
    assert_eq!(rolling_log_command(), "rollinglog");
    assert_eq!(socket2_path("/run/user/1000/hypr/abc"), "/run/user/1000/hypr/abc/.socket2.sock");
    assert_eq!(socket2_path("/tmp/"), "/tmp/.socket2.sock");
}

#[test]
fn hyprland_error_messages() {
    assert_eq!(HyprlandError::SocketNotFound.message(), "Hyprland socket directory not found");
    assert_eq!(HyprlandError::CommandFailed("x".to_string()).message(), "command failed: x");
    let io = std::io::Error::new(std::io::ErrorKind::Other, "boom");
    let e: HyprlandError = io.into();
    assert_eq!(e.message(), "failed to connect to Hyprland socket: boom");
}
