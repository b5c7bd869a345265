//! Small helpers shared by the commands.
use crate::config::Config;
use crate::level::Level;
use crate::logger::{Logger, LoggerView};
use crate::text::{chars_eq_str, chars_of, owned, push_str, lowercased, string_of, to_lowercase};
use vstd::prelude::*;

verus! {

/// The level a command-line word names: one of the five names, in any case.
pub open spec fn spec_cli_level(s: Seq<char>) -> Option<Level> {
    let l = lowercased(s);
    if l == "trace"@ {
        Some(Level::Trace)
    } else if l == "debug"@ {
        Some(Level::Debug)
    } else if l == "info"@ {
        Some(Level::Info)
    } else if l == "warn"@ {
        Some(Level::Warn)
    } else if l == "error"@ {
        Some(Level::Error)
    } else {
        None
    }
}

/// The level a command-line word names.
pub fn parse_level(s: &str) -> (r: Option<Level>)
    ensures
        r == spec_cli_level(s@),
{
    let lower = to_lowercase(s);
    let v = chars_of(lower.as_str());
    if chars_eq_str(&v, "trace") {
        Some(Level::Trace)
    } else if chars_eq_str(&v, "debug") {
        Some(Level::Debug)
    } else if chars_eq_str(&v, "info") {
        Some(Level::Info)
    } else if chars_eq_str(&v, "warn") {
        Some(Level::Warn)
    } else if chars_eq_str(&v, "error") {
        Some(Level::Error)
    } else {
        None
    }
}

/// The logger commands use: the configuration's logger for `app_override`,
/// or for `hyprlog` when none is given.
pub fn build_logger(config: &Config, app_override: Option<&str>) -> (r: Logger)
    ensures
        ({
            let app = match app_override {
                Some(a) => a@,
                None => "hyprlog"@,
            };
            let c = crate::config::spec_for_app(config@, app);
            r@ == (LoggerView {
                min_level: crate::internal::spec_config_level(c),
                outputs: crate::logger::setup::spec_config_outputs(c, false, app),
                presets: c.presets,
                app_name: Some(app),
            })
        }),
{
    let app = match app_override {
        Some(a) => a,
        None => "hyprlog",
    };
    Logger::from_config_with(config, app)
}

/// `directories::UserDirs::new()` and its home directory: `None` when no home
/// directory can be found, `Some(None)` when it is not valid Unicode. The result
/// depends on the environment, so nothing is stated about it.
#[verifier::external_body]
fn home_dir() -> (r: Option<Option<String>>) {
    match directories::UserDirs::new() {
        Some(dirs) => Some(dirs.home_dir().to_str().map(|h| h.to_string())),
        None => None,
    }
}

/// A path with a leading `~` replaced by the home directory (an empty one when
/// it is not valid Unicode); other paths, and every path when there is no home
/// directory, as they are.
pub open spec fn spec_expand_tilde(path: Seq<char>, home: Option<Option<Seq<char>>>) -> Seq<char> {
    if path.len() > 0 && path[0] == '~' {
        match home {
            Some(Some(h)) => h + path.drop_first(),
            Some(None) => path.drop_first(),
            None => path,
        }
    } else {
        path
    }
}

/// Expands a leading `~` against a home directory already looked up.
pub fn expand_tilde(path: &str, home: Option<Option<String>>) -> (r: String)
    ensures
        r@ == spec_expand_tilde(path@, match home {
            Some(Some(h)) => Some(Some(h@)),
            Some(None) => Some(None),
            None => None,
        }),
{
    let v = chars_of(path);
    if v.len() == 0 || v[0] != '~' {
        return owned(path);
    }
    let mut out: Vec<char> = Vec::new();
    match home {
        Some(Some(h)) => push_str(&mut out, h.as_str()),
        Some(None) => {},
        None => return owned(path),
    }
    let ghost prefix = out@;
    let mut i: usize = 1;
    while i < v.len()
        invariant
            1 <= i <= v@.len(),
            out@ == prefix + v@.subrange(1, i as int),
        decreases v@.len() - i,
    {
        out.push(v[i]);
        assert(v@.subrange(1, i + 1) =~= v@.subrange(1, i as int).push(v@[i as int]));
        i = i + 1;
    }
    assert(v@.subrange(1, v@.len() as int) =~= v@.drop_first());
    string_of(&out)
}

/// Expands a leading `~` to the user's home directory. Paths without one come
/// back as they are; a path with one comes back unchanged or with the `~`
/// replaced, whatever home directory the environment has.
pub fn expand_path(path: &str) -> (r: String)
    ensures
        !(path@.len() > 0 && path@[0] == '~') ==> r@ == path@,
        path@.len() > 0 && path@[0] == '~' ==> r@ == path@ || r@.len() >= path@.len() - 1
            && r@.subrange(r@.len() - (path@.len() - 1), r@.len() as int) == path@.drop_first(),
{
    let v = chars_of(path);
    if v.len() == 0 || v[0] != '~' {
        return owned(path);
    }
    expand_tilde(path, home_dir())
}

} // verus!
