use hyprs_log::config::structs::HighlightConfig;
use hyprs_log::fmt::highlight::inject_tags;
use hyprs_log::fmt::style::strip_tags;

fn config() -> HighlightConfig {
    let mut c = HighlightConfig::default();
    c.enabled = true;
    c.patterns.urls = Some("blue".to_string());
    c.patterns.paths = Some("cyan".to_string());
    c.patterns.numbers = Some("orange".to_string());
    c.patterns.quoted = Some("green".to_string());
    c
}

#[test]
fn disabled_highlighting_keeps_text() {
    let mut c = config();
    c.enabled = false;
    assert_eq!(inject_tags("port 8080", &c), "port 8080");
    assert_eq!(inject_tags("", &config()), "");
}

#[test]
fn numbers_and_urls_are_tagged() {
    let c = config();
    assert_eq!(inject_tags("port 8080 open", &c), "port <orange>8080</orange> open");
    assert_eq!(
        inject_tags("see https://example.com/x1 now", &c),
        "see <blue>https://example.com/x1</blue> now"
    );
}

#[test]
fn paths_and_quotes_are_tagged() {
    let c = config();
    assert_eq!(inject_tags("read /etc/hosts", &c), "read <cyan>/etc/hosts</cyan>");
    assert_eq!(inject_tags("said \"hi\"", &c), "said <green>\"hi\"</green>");
}

#[test]
fn existing_tags_are_skipped() {
    let c = config();
    assert_eq!(inject_tags("<red>42</red> and 7", &c), "<red>42</red> and <orange>7</orange>");
}

#[test]
fn keywords_are_tagged_case_insensitively() {
    let mut c = config();
    c.keywords.insert("error".to_string(), "red".to_string());
    assert_eq!(inject_tags("An ERROR occurred", &c), "An <red>ERROR</red> occurred");
}

#[test]
fn non_ascii_offsets_are_respected() {
    let c = config();
    assert_eq!(inject_tags("größe 12", &c), "größe <orange>12</orange>");
}

#[test]
fn stripping_injected_tags_gives_the_message_back() {
    let mut c = config();
    c.keywords.insert("error".to_string(), "red".to_string());
    c.keywords.insert("port".to_string(), "yellow".to_string());
    let messages = [
        "port 8080 open",
        "see https://example.com/x1 now, then ./run.sh -v 3",
        "ERROR in 'quoted 42' at /var/log/x.log line 7",
        "größe 12, \"a b\" and -3.5",
        "nothing to highlight here",
        "",
    ];
    for msg in messages {
        let tagged = inject_tags(msg, &c);
        assert_eq!(strip_tags(&tagged), msg);
    }
    assert_ne!(inject_tags("port 8080 open", &c), "port 8080 open");
}
