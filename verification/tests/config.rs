use hyprs_log::config::error::ConfigError;
use hyprs_log::config::structs::AppConfig;
use hyprs_log::config::{extract_sources, include_step, merge_includes, Config, IncludeChain, IncludeStep};
use hyprs_log::error::Error;
use hyprs_log::level::Level;

#[test]
fn sources_are_split_off() {
    let (sources, rest) = extract_sources("source = \"~/a.conf\"\n[general]\nsource='b'\nlevel = \"debug\"");
    assert_eq!(sources, vec!["~/a.conf".to_string(), "b".to_string()]);
    assert_eq!(rest, "[general]\nlevel = \"debug\"\n");
}

#[test]
fn merge_keeps_primary_values() {
    let mut a = Config::default();
    a.colors.insert("accent".to_string(), "#111111".to_string());
    let mut b = Config::default();
    b.colors.insert("accent".to_string(), "#222222".to_string());
    b.colors.insert("ok".to_string(), "#00ff00".to_string());
    a.merge(b);
    assert_eq!(a.colors.get("accent").map(String::as_str), Some("#111111"));
    assert_eq!(a.colors.get("ok").map(String::as_str), Some("#00ff00"));
    assert_eq!(a.get_color("ok").map(|c| (c.r, c.g, c.b)), Some((0, 255, 0)));
}

#[test]
fn app_overrides() {
    let mut c = Config::default();
    let mut app = AppConfig::default();
    app.level = Some("debug".to_string());
    c.apps.insert("myapp".to_string(), app);
    assert_eq!(c.for_app("myapp").parse_level(), Level::Debug);
    assert_eq!(c.for_app("other").parse_level(), Level::Info);
}

#[test]
fn error_messages() {
    assert_eq!(Error::PresetNotFound("x".to_string()).message(), "preset not found: x");
    assert_eq!(Error::ConfigDirNotFound.message(), "config directory not found");
    let e: Error = std::io::Error::new(std::io::ErrorKind::Other, "gone").into();
    assert_eq!(e.message(), "I/O error: gone");
}

#[test]
fn config_error_texts() {
    assert_eq!(ConfigError::ConfigDirNotFound.message(), "config directory not found");
    assert_eq!(ConfigError::CyclicInclude("/a/b.conf".to_string()).message(), "cyclic include: /a/b.conf");
    let io = ConfigError::from(std::io::Error::new(std::io::ErrorKind::NotFound, "gone"));
    assert_eq!(io.message(), "I/O error: gone");
    let parse = ConfigError::from(toml::from_str::<toml::Value>("a = ").unwrap_err());
    assert!(parse.message().starts_with("parse error: "));
}

#[test]
fn only_source_keys_are_includes() {
    let (sources, rest) = extract_sources("source_dir = '/x'\n  source= /y\n");
    assert_eq!(sources, vec!["/y".to_string()]);
    assert_eq!(rest, "source_dir = '/x'\n");
}

#[test]
fn include_steps() {
    let chain = vec!["/c/a.conf".to_string()];
    assert!(matches!(include_step(&chain, "/c/b.conf", false), IncludeStep::UseDefault));
    assert!(matches!(include_step(&chain, "/c/b.conf", true), IncludeStep::Read));
    match include_step(&chain, "/c/a.conf", true) {
        IncludeStep::Cycle(p) => assert_eq!(p, "/c/a.conf"),
        _ => panic!("expected a cycle"),
    }
}

#[test]
fn includes_merge_in_order() {
    let mut base = Config::default();
    base.colors.insert("accent".to_string(), "#111111".to_string());
    let mut first = Config::default();
    first.colors.insert("accent".to_string(), "#222222".to_string());
    first.colors.insert("ok".to_string(), "#00ff00".to_string());
    let mut second = Config::default();
    second.colors.insert("ok".to_string(), "#0000ff".to_string());
    second.colors.insert("bad".to_string(), "#ff0000".to_string());
    let c = merge_includes(base, &vec![first, second]);
    assert_eq!(c.colors.get("accent").map(|s| s.as_str()), Some("#111111"));
    assert_eq!(c.colors.get("ok").map(|s| s.as_str()), Some("#00ff00"));
    assert_eq!(c.colors.get("bad").map(|s| s.as_str()), Some("#ff0000"));
}

#[test]
fn include_chain_tells_a_cycle_from_a_diamond() {
    // main includes a and b, both of which include common: common is read twice.
    let mut chain = IncludeChain::new();
    assert!(matches!(chain.step("/c/main.conf", true), IncludeStep::Read));
    assert!(matches!(chain.step("/c/a.conf", true), IncludeStep::Read));
    assert!(matches!(chain.step("/c/common.conf", true), IncludeStep::Read));
    chain.finish();
    chain.finish();
    assert!(matches!(chain.step("/c/b.conf", true), IncludeStep::Read));
    assert!(matches!(chain.step("/c/common.conf", true), IncludeStep::Read));
    // common including main again is a cycle.
    match chain.step("/c/main.conf", true) {
        IncludeStep::Cycle(p) => assert_eq!(p, "/c/main.conf"),
        _ => panic!("expected a cycle"),
    }
    assert!(matches!(chain.step("/c/missing.conf", false), IncludeStep::UseDefault));
    chain.finish();
    chain.finish();
    chain.finish();
    chain.finish();
    assert!(matches!(chain.step("/c/main.conf", true), IncludeStep::Read));
}
