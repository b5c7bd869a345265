use hyprs_log::config::structs::PresetConfig;
use hyprs_log::config::Config;
use hyprs_log::ffi::{build_logger as ffi_logger, error_buffer, level_from_int, simple_logger, HyprslogContext};
use hyprs_log::internal::build_internal_logger;
use hyprs_log::level::Level;
use hyprs_log::logger::output::{FileSettings, JsonSettings, OutputSpec, RemoteTarget, TerminalSettings};
use hyprs_log::logger::render::{file_entry, json_fields, json_line, terminal_line};
use hyprs_log::logger::Logger;
use hyprs_log::strmap::StrMap;

fn preset(level: &str, scope: Option<&str>, msg: &str, app: Option<&str>) -> PresetConfig {
    PresetConfig {
        level: level.to_string(),
        as_level: None,
        scope: scope.map(str::to_string),
        msg: msg.to_string(),
        app_name: app.map(str::to_string),
    }
}

#[test]
fn records_below_the_minimum_are_dropped() {
    let logger = Logger::builder().level(Level::Warn).build();
    assert!(logger.info("MAIN", "hello").is_none());
    assert!(logger.debug("MAIN", "hello").is_none());
    let r = logger.error("NET", "down").unwrap();
    assert_eq!(r.level, Level::Error);
    assert_eq!(r.scope, "NET");
    assert_eq!(r.message, "down");
    assert!(!r.raw);
    assert_eq!(r.app_name, None);
    let p = logger.print("STATS", "always");
    assert_eq!(p.level, Level::Info);
    let raw = logger.raw("  item");
    assert!(raw.raw);
    assert_eq!(raw.scope, "");
}

#[test]
fn labels_and_apps_are_carried() {
    let logger = Logger::builder().level(Level::Trace).build();
    let r = logger.log_with_label(Level::Info, "DEPLOY", "done", "SUCCESS").unwrap();
    assert_eq!(r.label_override.as_deref(), Some("SUCCESS"));
    let r = logger.log_full(Level::Info, "X", "m", Some("other")).unwrap();
    assert_eq!(r.app_name.as_deref(), Some("other"));
    assert!(logger.trace("X", "m").is_some());
}

#[test]
fn presets_run_by_name() {
    let mut presets: StrMap<PresetConfig> = StrMap::new();
    presets.insert("startup".to_string(), preset("info", Some("INIT"), "started", Some("myapp")));
    presets.insert("odd".to_string(), preset("custom", None, "x", None));
    presets.insert("quiet".to_string(), preset("debug", None, "shh", None));
    let logger = Logger::builder().presets(presets).build();
    assert!(logger.has_preset("startup"));
    assert_eq!(logger.preset_count(), 3);
    assert!(logger.preset("missing").is_none());
    let r = logger.preset("startup").unwrap().unwrap();
    assert_eq!((r.level, r.scope.as_str(), r.message.as_str()), (Level::Info, "INIT", "started"));
    assert_eq!(r.app_name.as_deref(), Some("myapp"));
    let r = logger.preset("odd").unwrap().unwrap();
    assert_eq!((r.level, r.scope.as_str()), (Level::Info, "LOG"));
    assert!(logger.preset("quiet").unwrap().is_none());
}

#[test]
fn builders_describe_outputs_in_order() {
    let logger = Logger::builder()
        .level(Level::Debug)
        .terminal()
        .colors(false)
        .structure("{msg}")
        .done()
        .file()
        .base_dir("/tmp/logs".to_string())
        .app_name("demo".to_string())
        .done()
        .json()
        .path("/tmp/x.jsonl".to_string())
        .done()
        .remote()
        .tcp("127.0.0.1:9872".to_string())
        .done()
        .build();
    assert_eq!(logger.min_level(), Level::Debug);
    assert_eq!(logger.output_count(), 4);
    match &logger.outputs()[0] {
        OutputSpec::Terminal(t) => {
            assert_eq!(t.colors, Some(false));
            assert_eq!(t.structure.as_deref(), Some("{msg}"));
        }
        _ => panic!("terminal expected"),
    }
    match &logger.outputs()[1] {
        OutputSpec::File(f) => {
            assert_eq!(f.base_dir.as_deref(), Some("/tmp/logs"));
            assert_eq!(f.app_name.as_deref(), Some("demo"));
        }
        _ => panic!("file expected"),
    }
    assert!(matches!(&logger.outputs()[2], OutputSpec::Json(j) if j.path.as_deref() == Some("/tmp/x.jsonl")));
    assert!(matches!(&logger.outputs()[3], OutputSpec::Remote(RemoteTarget::Tcp(a)) if a == "127.0.0.1:9872"));
}

#[test]
fn c_levels_and_contexts() {
    assert_eq!(level_from_int(0), Level::Trace);
    assert_eq!(level_from_int(1), Level::Debug);
    assert_eq!(level_from_int(2), Level::Info);
    assert_eq!(level_from_int(3), Level::Warn);
    assert_eq!(level_from_int(4), Level::Error);
    assert_eq!(level_from_int(99), Level::Info);
    let l = simple_logger(3, true);
    assert_eq!(l.min_level(), Level::Warn);
    assert_eq!(l.output_count(), 1);
    let mut ctx = HyprslogContext::new(l);
    ctx.set_error("bad".to_string());
    assert_eq!(ctx.last_error.as_deref(), Some("bad"));
    ctx.clear_error();
    assert_eq!(ctx.last_error, None);
}

#[test]
fn loggers_from_configuration() {
    let mut config = Config::default();
    config.general.level = "WARN".to_string();
    config.terminal.enabled = true;
    config.file.enabled = false;
    let internal = build_internal_logger(&config);
    assert_eq!(internal.min_level(), Level::Warn);
    assert_eq!(internal.output_count(), 1);
    let c = ffi_logger(&config);
    assert_eq!(c.output_count(), 1);
    config.file.enabled = true;
    let both = Logger::from_config_with(&config, "demo");
    assert_eq!(both.output_count(), 2);
    assert_eq!(both.app_name().map(String::as_str), Some("demo"));
    match &both.outputs()[1] {
        OutputSpec::File(f) => assert_eq!(f.app_name.as_deref(), Some("demo")),
        _ => panic!("file expected"),
    }
}

#[test]
fn terminal_and_file_lines() {
    let logger = Logger::builder().build();
    let rec = logger.print("MAIN", "hello <bold>x</bold>");
    let mut t = TerminalSettings::new();
    t.colors = Some(false);
    assert_eq!(terminal_line(&t, &rec), ("[INFO ] MAIN          hello x".to_string(), false));
    let warn = logger.log(Level::Warn, "NET", "slow").unwrap();
    assert!(terminal_line(&t, &warn).1);
    let raw = logger.raw("<bold>b</bold>");
    assert_eq!(terminal_line(&t, &raw), ("b".to_string(), false));
    let f = FileSettings::new();
    let (dir, name, line) = file_entry(&f, &rec, "2025-01-01 10:00:00", "2025", "01", "01");
    assert_eq!(dir, "2025/01/hyprlog");
    assert_eq!(name, "MAIN_info_01.log");
    assert_eq!(line, "2025-01-01 10:00:00 [INFO ] MAIN  hello x");
    let j = JsonSettings { path: None, app_name: Some("j".to_string()) };
    let fields = json_fields(&j, &rec);
    assert_eq!((fields.level.as_str(), fields.message.as_str(), fields.app.as_deref()), ("info", "hello x", Some("j")));
}

#[test]
fn error_buffers() {
    assert_eq!(error_buffer(&None, 4), Some(vec![0u8]));
    assert_eq!(error_buffer(&Some("bad".to_string()), 4), Some(vec![b'b', b'a', b'd', 0]));
    assert_eq!(error_buffer(&Some("bad".to_string()), 3), None);
    assert_eq!(error_buffer(&Some("é".to_string()), 3), Some(vec![0xc3, 0xa9, 0]));
}

#[test]
fn json_lines_escape_and_order_keys() {
    let logger = Logger::builder().build();
    let rec = logger.print("NET", "say \"hi\"\n<bold>now</bold>");
    let j = JsonSettings { path: None, app_name: None };
    let fields = json_fields(&j, &rec);
    assert_eq!(
        json_line(&fields, "2025-01-01T10:00:00+00:00"),
        "{\"app\":null,\"level\":\"info\",\"message\":\"say \\\"hi\\\"\\nnow\",\"scope\":\"NET\",\"timestamp\":\"2025-01-01T10:00:00+00:00\"}"
    );
    let named = JsonSettings { path: None, app_name: Some("demo".to_string()) };
    let line = json_line(&json_fields(&named, &rec), "t");
    let parsed: serde_json::Value = serde_json::from_str(&line).unwrap();
    assert_eq!(parsed["app"], "demo");
    assert_eq!(parsed["message"], "say \"hi\"\nnow");
    assert_eq!(parsed["timestamp"], "t");
}
