use hyprs_log::cleanup::date::Date;
use hyprs_log::cli::commands::{
    cleanup_request, cmd_log, cmd_log_shorthand, cmd_preset, json_entry_record, parse_event_list,
    parse_send_args, route, send_line, stats_app_filter, watch_config, Route,
};
use hyprs_log::cli::listing::cmd_presets;
use hyprs_log::cli::preset::PresetRunner;
use hyprs_log::cli::util::{expand_path, expand_tilde, parse_level};
use hyprs_log::cli::{LogLevel, ThemeAction};
use hyprs_log::config::structs::{CleanupConfig, HyprlandConfig, PresetConfig};
use hyprs_log::config::Config;
use hyprs_log::level::Level;
use hyprs_log::logger::Logger;

fn args(v: &[&str]) -> Vec<String> {
    v.iter().map(|s| s.to_string()).collect()
}

#[test]
fn cli_levels_have_no_aliases() {
    assert_eq!(parse_level("INFO"), Some(Level::Info));
    assert_eq!(parse_level("warn"), Some(Level::Warn));
    assert_eq!(parse_level("WARN"), Some(Level::Warn));
    assert_eq!(parse_level("warning"), None);
    assert_eq!(Level::from(LogLevel::Error), Level::Error);
    assert_eq!(ThemeAction::default(), ThemeAction::List);
}

#[test]
fn log_commands() {
    let logger = Logger::builder().build();
    let r = cmd_log(&args(&["myapp", "error", "NET", "Connection", "failed"]), &logger).unwrap().unwrap();
    assert_eq!(r.message, "Connection failed");
    assert_eq!(r.app_name.as_deref(), Some("myapp"));
    let d = cmd_log(&args(&["myapp", "error", "NET"]), &logger).err().unwrap();
    assert_eq!(d.message, "Usage: hyprlog log <app> <level> <scope> <message>");
    assert_eq!(d.level, Level::Warn);
    let d = cmd_log(&args(&["myapp", "loud", "NET", "x"]), &logger).err().unwrap();
    assert_eq!(d.message, "Invalid level: loud");
    assert!(cmd_log(&args(&["myapp", "debug", "NET", "x"]), &logger).unwrap().is_none());
    let r = cmd_log_shorthand(&args(&["info", "INIT", "Application", "started"]), &logger).unwrap().unwrap();
    assert_eq!((r.scope.as_str(), r.message.as_str()), ("INIT", "Application started"));
    let r = cmd_log_shorthand(&args(&["myapp", "info", "NET", "up"]), &logger).unwrap().unwrap();
    assert_eq!(r.app_name.as_deref(), Some("myapp"));
    let d = cmd_log_shorthand(&args(&["myapp", "x", "y"]), &logger).err().unwrap();
    assert_eq!(d.message, "Usage: hyprlog <app> <level> <scope> <message>");
}

#[test]
fn preset_command_and_runner() {
    let mut config = Config::default();
    config.presets.insert(
        "startup".to_string(),
        PresetConfig { level: "info".to_string(), as_level: None, scope: None, msg: "go".to_string(), app_name: None },
    );
    config.presets.insert(
        "bad".to_string(),
        PresetConfig { level: "shout".to_string(), as_level: None, scope: None, msg: "x".to_string(), app_name: Some("a".to_string()) },
    );
    let logger = Logger::builder().build();
    let r = cmd_preset(&args(&["startup"]), &config, &logger).unwrap().unwrap();
    assert_eq!((r.scope.as_str(), r.message.as_str()), ("LOG", "go"));
    let d = cmd_preset(&args(&["nope"]), &config, &logger).err().unwrap();
    assert_eq!(d.message, "preset not found: nope");
    let d = cmd_preset(&args(&["bad"]), &config, &logger).err().unwrap();
    assert_eq!(d.message, "invalid level in preset: shout");
    let d = cmd_preset(&args(&[]), &config, &logger).err().unwrap();
    assert_eq!(d.message, "Usage: hyprlog preset <name>");
    let runner = PresetRunner::new(&config, &logger);
    assert!(runner.preset_exists("startup"));
    let mut list = runner.list();
    list.sort();
    assert_eq!(list, vec![("bad".to_string(), Some("a".to_string())), ("startup".to_string(), None)]);
}

#[test]
fn cleanup_arguments() {
    let cfg = CleanupConfig { max_age_days: Some(30), max_total_size: Some("500M".to_string()), keep_last: Some(5), compress_after_days: None };
    let req = cleanup_request(&args(&["--dry-run", "--older-than", "7d", "--keep-last", "2", "--app", "demo"]), &cfg).ok().unwrap();
    assert!(req.options.dry_run);
    assert!(!req.options.compress);
    assert_eq!(req.options.max_age_days, Some(7));
    assert_eq!(req.options.keep_last, Some(2));
    assert_eq!(req.options.app_filter.as_deref(), Some("demo"));
    assert_eq!(req.max_size.as_deref(), Some("500M"));
    let req = cleanup_request(&args(&["--max-size", "1G", "--older-than", "soon", "--before", "2024-02-01"]), &cfg).ok().unwrap();
    assert_eq!(req.max_size.as_deref(), Some("1G"));
    assert_eq!(req.options.max_age_days, Some(30));
    assert_eq!(req.options.before_date, Some(Date { year: 2024, month: 2, day: 1 }));
    let d = cleanup_request(&args(&["--after", "01/02/2024"]), &cfg).err().unwrap();
    assert_eq!(d.message, "Invalid date format for --after: 01/02/2024 (use YYYY-MM-DD)");
    assert_eq!(d.scope, "CLEANUP");
}

#[test]
fn watch_arguments() {
    let cfg = HyprlandConfig::default();
    let c = watch_config(&args(&["--events", "openwindow, closewindow"]), &cfg).ok().unwrap();
    assert_eq!(c.event_filter, Some(vec!["openwindow".to_string(), "closewindow".to_string()]));
    assert_eq!(parse_event_list("a,,b "), vec!["a".to_string(), String::new(), "b".to_string()]);
    let c = watch_config(&args(&["--min-level", "info"]), &cfg).ok().unwrap();
    let mut silenced = c.ignore_events.clone();
    silenced.sort();
    let mut expected: Vec<String> = [
        "activewindow", "activewindowv2", "focusedmon", "activelayout", "fullscreen",
        "changefloatingmode", "configreloaded", "openlayer", "closelayer", "screencast", "pin",
    ]
    .iter()
    .map(|s| s.to_string())
    .collect();
    expected.sort();
    assert_eq!(silenced, expected);
    let d = watch_config(&args(&["--min-level", "loud"]), &cfg).err().unwrap();
    assert_eq!(d.message, "Invalid level: loud");
    assert_eq!(d.scope, "hyprland");
}

#[test]
fn send_arguments_and_line() {
    let req = parse_send_args(&args(&["--app", "demo", "--tcp", "127.0.0.1:1", "info", "NET", "a", "\"b\""])).ok().unwrap();
    assert_eq!(req.app.as_deref(), Some("demo"));
    assert_eq!(req.tcp_addr.as_deref(), Some("127.0.0.1:1"));
    assert_eq!(req.message, "a \"b\"");
    assert_eq!(
        send_line(&req),
        "{\"app\":\"demo\",\"level\":\"info\",\"message\":\"a \\\"b\\\"\",\"scope\":\"NET\"}\n"
    );
    let req = parse_send_args(&args(&["warn", "X", "y"])).ok().unwrap();
    assert_eq!(send_line(&req), "{\"app\":null,\"level\":\"warn\",\"message\":\"y\",\"scope\":\"X\"}\n");
    let req = parse_send_args(&args(&["info", "S", "t\tq\u{1}\\é"])).ok().unwrap();
    assert_eq!(
        send_line(&req),
        "{\"app\":null,\"level\":\"info\",\"message\":\"t\\tq\\u0001\\\\é\",\"scope\":\"S\"}\n"
    );
    let d = parse_send_args(&args(&["--app", "demo", "info"])).err().unwrap();
    assert_eq!(d.message, "usage: hyprslog send [--app <app>] [--tcp <addr>] <level> <scope> <message>");
    let d = parse_send_args(&args(&["loud", "X", "y"])).err().unwrap();
    assert_eq!(d.message, "invalid level: loud");
}

#[test]
fn json_entries_and_stats_filter() {
    let logger = Logger::builder().build();
    let r = json_entry_record("info", "TEST", "hello", &logger).unwrap().unwrap();
    assert_eq!(r.message, "hello");
    assert_eq!(json_entry_record("nope", "T", "m", &logger).err().unwrap(), "invalid level: nope");
    assert_eq!(stats_app_filter(&args(&["--app", "demo"])).as_deref(), Some("demo"));
    assert_eq!(stats_app_filter(&args(&["--app"])), None);
}

#[test]
fn routes() {
    assert_eq!(route(&args(&[])), Route::Shell);
    assert_eq!(route(&args(&["-h"])), Route::Help);
    assert_eq!(route(&args(&["cleanup", "--dry-run"])), Route::Cleanup);
    assert_eq!(route(&args(&["info", "X", "y"])), Route::Shorthand);
    assert_eq!(route(&args(&["myapp", "INFO", "X", "y"])), Route::Shorthand);
    assert_eq!(route(&args(&["frobnicate"])), Route::Unknown);
}

#[test]
fn presets_are_grouped_and_sorted() {
    let logger = Logger::builder().build();
    let mut config = Config::default();
    let r = cmd_presets(&config, &logger);
    assert_eq!(r.len(), 1);
    assert_eq!((r[0].scope.as_str(), r[0].message.as_str()), ("PRESETS", "No presets defined"));
    for (name, app) in [("zeta", Some("web")), ("deploy", None), ("alpha", Some("web")), ("boot", None), ("x", Some("api"))] {
        config.presets.insert(
            name.to_string(),
            PresetConfig { level: "info".to_string(), as_level: None, scope: None, msg: "m".to_string(), app_name: app.map(|a| a.to_string()) },
        );
    }
    let r = cmd_presets(&config, &logger);
    let lines: Vec<&str> = r.iter().map(|x| x.message.as_str()).collect();
    assert_eq!(
        lines,
        vec!["Available presets:", "  [api]", "    x", "  [general]", "    boot", "    deploy", "  [web]", "    alpha", "    zeta"]
    );
    assert!(!r[0].raw);
    assert!(r[1..].iter().all(|x| x.raw && x.scope.is_empty()));
}

#[test]
fn tilde_expands_to_home() {
    let home = Some(Some("/home/u".to_string()));
    assert_eq!(expand_tilde("~/.local/state/hyprlog/logs", home.clone()), "/home/u/.local/state/hyprlog/logs");
    assert_eq!(expand_tilde("/var/log", home.clone()), "/var/log");
    assert_eq!(expand_tilde("a~b", home), "a~b");
    assert_eq!(expand_tilde("~/x", None), "~/x");
    assert_eq!(expand_tilde("~/x", Some(None)), "/x");
    assert_eq!(expand_path("/abs/path"), "/abs/path");
    assert!(expand_path("~/x").ends_with("/x"));
}
