use hyprs_log::fmt::color::{colorize, Color};
use hyprs_log::fmt::format::{FormatTemplate, FormatValues};
use hyprs_log::fmt::icon::{IconSet, IconType};
use hyprs_log::fmt::scope::ScopeConfig;
use hyprs_log::fmt::style::{parse, render, render_plain, strip_tags};
use hyprs_log::fmt::tag::{pad, Alignment, TagConfig, Transform};
use hyprs_log::level::Level;
use hyprs_log::strmap::StrMap;

#[test]
fn levels_parse_case_insensitively_with_aliases() {
    for l in Level::all() {
        assert_eq!(Level::parse(l.as_str()).unwrap(), l);
    }
    assert_eq!(Level::parse("WARNING").unwrap(), Level::Warn);
    assert_eq!(Level::parse("Err").unwrap(), Level::Error);
    assert_eq!(Level::parse("INFO").unwrap(), Level::Info);
    let e = Level::parse("loud").unwrap_err();
    assert_eq!(e.message(), "unknown log level: 'loud'");
    assert_eq!("debug".parse::<Level>().unwrap(), Level::Debug);
}

#[test]
fn levels_are_ordered() {
    assert!(Level::Error.at_least(Level::Warn));
    assert!(!Level::Debug.at_least(Level::Info));
    assert_eq!(Level::Trace.severity(), 0);
    assert_eq!(Level::Error.severity(), 4);
    assert_eq!(Level::default(), Level::Info);
}

#[test]
fn colors_from_hex() {
    assert_eq!(Color::from_hex("#ff8000"), Color::new(255, 128, 0));
    assert_eq!(Color::from_hex("ff8000"), Color::new(255, 128, 0));
    assert_eq!(Color::from_hex("#zz0000"), Color::white());
    assert_eq!(Color::from_hex("#+f+f+f"), Color::white());
    assert_eq!(Color::from_hex("#fff"), Color::white());
    let c = Color::new(7, 200, 171);
    assert_eq!(Color::from_hex(&c.to_hex_string()), c);
    assert_eq!(Color::new(1, 2, 3).fg_ansi(), "\x1b[38;2;1;2;3m");
    assert_eq!(colorize("hi", Color::new(1, 2, 3)), "\x1b[38;2;1;2;3mhi\x1b[0m");
}

#[test]
fn style_tags_parse_and_render() {
    let msg = "<bold>Server</bold> up on <cyan>:8080</cyan>";
    let segs = parse(msg);
    assert_eq!(render_plain(&segs), "Server up on :8080");
    assert_eq!(strip_tags(msg), "Server up on :8080");
    let mut colors: StrMap<Color> = StrMap::new();
    colors.insert("cyan".to_string(), Color::new(0, 255, 255));
    assert_eq!(
        render(&segs, &colors),
        "\x1b[1mServer\x1b[0m up on \x1b[38;2;0;255;255m:8080\x1b[0m"
    );
}

#[test]
fn unmatched_brackets_stay_text() {
    assert_eq!(strip_tags("a < b"), "a < b");
    assert_eq!(strip_tags("<b>unclosed"), "<b>unclosed");
    assert_eq!(strip_tags("x <red>y</red> < z"), "x y < z");
    assert_eq!(strip_tags("plain text"), "plain text");
}

#[test]
fn templates_render_values() {
    let t = FormatTemplate::parse("{tag} {scope}: {msg}");
    let v = FormatValues::new().tag("[INFO]").scope("MAIN").msg("hello");
    assert_eq!(t.render(&v), "[INFO] MAIN: hello");
    let d = FormatTemplate::default();
    assert_eq!(d.render(&v), "[INFO] MAIN  hello");
}

#[test]
fn tags_pad_and_transform() {
    assert_eq!(pad("ab", 6, Alignment::Center), "  ab  ");
    assert_eq!(pad("ab", 5, Alignment::Left), "ab   ");
    assert_eq!(pad("ab", 5, Alignment::Right), "   ab");
    assert_eq!(pad("abcdef", 3, Alignment::Right), "abcdef");
    assert_eq!(Transform::Uppercase.apply("info"), "INFO");
    assert_eq!(Transform::Capitalize.apply("wARN"), "Warn");
    let tag = TagConfig::new().transform(Transform::Uppercase).min_width(5).alignment(Alignment::Center);
    assert_eq!(tag.format(Level::Info), "[INFO ]");
    assert_eq!(tag.format(Level::Error), "[ERROR]");
    let labelled = TagConfig::new().label(Level::Info, "ok");
    assert_eq!(labelled.format(Level::Info), "[ OK  ]");
    assert_eq!(TagConfig::new().format_with_label(Level::Info, "deploy"), "[DEPLOY]");
}

#[test]
fn scope_column() {
    let s = ScopeConfig::new().min_width(6).transform(Transform::Uppercase);
    assert_eq!(s.format("net"), "NET   ");
}

#[test]
fn icon_sets() {
    let ascii = IconSet::ascii();
    assert_eq!(ascii.icon_type(), IconType::Ascii);
    assert!(!ascii.get(Level::Info).is_empty());
    let none = IconSet::none();
    assert_eq!(none.icon_type(), IconType::Disabled);
    let mut set = IconSet::from_type(IconType::NerdFont);
    set.set(Level::Warn, "!");
    assert_eq!(set.get(Level::Warn), "!");
}

#[test]
fn templates_keep_their_text() {
    let own = FormatValues::new()
        .tag("{tag}")
        .icon("{icon}")
        .scope("{scope}")
        .msg("{msg}")
        .timestamp("{timestamp}")
        .level("{level}")
        .app("{app}")
        .date("{year}", "{month}", "{day}");
    for t in ["{tag} {scope}  {msg}", "a {unknown} b {", "{{day}}-{month", "", "}{"] {
        assert_eq!(FormatTemplate::parse(t).render(&own), t);
    }
}

#[test]
fn transforms_on_ascii_settle_after_one_application() {
    let inputs = ["", "a", "wARN", "Hello World 42", "already UPPER", "mixed_Case-text!"];
    let transforms = [Transform::Unchanged, Transform::Uppercase, Transform::Lowercase, Transform::Capitalize];
    for t in transforms {
        for s in inputs {
            let once = t.apply(s);
            assert_eq!(t.apply(&once), once);
            assert_eq!(once.len(), s.len());
            assert!(once.eq_ignore_ascii_case(s));
        }
    }
    assert_eq!(Transform::Lowercase.apply("MiXeD 1"), "mixed 1");
    assert_eq!(Transform::Capitalize.apply("hELLO wORLD"), "Hello world");
    assert_eq!(Transform::Uppercase.apply("straße"), "STRASSE");
}

#[test]
fn level_names_ignore_ascii_case() {
    assert_eq!("info".parse::<Level>().unwrap(), Level::Info);
    assert_eq!("WaRn".parse::<Level>().unwrap(), Level::Warn);
    assert_eq!(TagConfig::default().format(Level::Info), "[INFO ]");
}
