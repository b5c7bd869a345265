//! Presets: log entries defined once in the configuration and run by name.
use crate::config::Config;
use crate::config::structs::PresetConfigView;
use crate::error::Error;
use crate::level::Level;
use crate::logger::{LogRecord, LogRecordView, Logger, passes, spec_record};
use crate::text::{copy_opt_string, opt_view, owned};
use vstd::prelude::*;

verus! {

/// Runs presets of a configuration through a logger.
pub struct PresetRunner<'a> {
    config: &'a Config,
    logger: &'a Logger,
}

/// The record a preset yields when its level is valid: its scope (`LOG` when
/// absent), its message, its application.
pub open spec fn spec_preset_entry(p: PresetConfigView, level: Level, logger_app: Option<Seq<char>>) -> LogRecordView {
    spec_record(
        level,
        match p.scope {
            Some(s) => s,
            None => "LOG"@,
        },
        p.msg,
        None,
        match p.app_name {
            Some(a) => Some(a),
            None => logger_app,
        },
    )
}

impl<'a> PresetRunner<'a> {
    /// A runner over the presets of `config`, logging through `logger`.
    pub fn new(config: &'a Config, logger: &'a Logger) -> (r: PresetRunner<'a>)
        ensures
            r.config() == config,
            r.logger() == logger,
    {
        PresetRunner { config, logger }
    }

    /// The configuration.
    pub closed spec fn config(&self) -> &'a Config {
        self.config
    }

    /// The logger.
    pub closed spec fn logger(&self) -> &'a Logger {
        self.logger
    }

    /// Runs the preset `name`: an error when no preset has that name or its
    /// level is not a level, else the record it logs (`None` when below the
    /// logger's minimum level).
    pub fn run(&self, name: &str) -> (r: Result<Option<LogRecord>, Error>)
        ensures
            ({
                let presets = self.config()@.presets;
                match r {
                    Err(Error::PresetNotFound(n)) => !presets.contains_key(name@) && n@ == name@,
                    Err(Error::InvalidLevel(l)) => presets.contains_key(name@) && Level::spec_parse(
                        presets[name@].level,
                    ) is None && l@ == presets[name@].level,
                    Err(_) => false,
                    Ok(out) => presets.contains_key(name@) && Level::spec_parse(
                        presets[name@].level,
                    ) is Some && {
                        let level = Level::spec_parse(presets[name@].level).unwrap();
                        &&& (out is Some <==> passes(self.logger()@.min_level, level))
                        &&& (out matches Some(rec) ==> rec@ == spec_preset_entry(
                            presets[name@],
                            level,
                            self.logger()@.app_name,
                        ))
                    },
                }
            }),
    {
        let preset = match self.config.presets.get(name) {
            Some(p) => p,
            None => return Err(Error::PresetNotFound(owned(name))),
        };
        let level = match Level::parse(preset.level.as_str()) {
            Ok(l) => l,
            Err(_) => return Err(Error::InvalidLevel(preset.level.clone())),
        };
        let scope = match &preset.scope {
            Some(s) => s.as_str(),
            None => "LOG",
        };
        let app: Option<&str> = match &preset.app_name {
            Some(a) => Some(a.as_str()),
            None => None,
        };
        Ok(self.logger.log_full(level, scope, preset.msg.as_str(), app))
    }

    /// Every preset as (name, application), each once.
    pub fn list(&self) -> (r: Vec<(String, Option<String>)>)
        ensures
            r@.len() == self.config()@.presets.len(),
            forall|i: int|
                0 <= i < r@.len() ==> self.config()@.presets.contains_key(#[trigger] r@[i].0@)
                    && opt_view(r@[i].1) == self.config()@.presets[r@[i].0@].app_name,
            forall|i: int, j: int| 0 <= i < j < r@.len() ==> r@[i].0@ != r@[j].0@,
            forall|k: Seq<char>|
                #[trigger] self.config()@.presets.contains_key(k) ==> exists|i: int|
                    0 <= i < r@.len() && r@[i].0@ == k,
    {
        let presets = &self.config.presets;
        proof {
            use_type_invariant(presets);
            presets.lemma_view();
        }
        let mut r: Vec<(String, Option<String>)> = Vec::new();
        let mut i: usize = 0;
        while i < presets.len()
            invariant
                presets == &self.config.presets,
                crate::strmap::unique_keys(presets.pairs()),
                forall|k: int|
                    0 <= k < presets.pairs().len() ==> #[trigger] presets@[presets.pairs()[k].0]
                        == presets.pairs()[k].1,
                forall|k: int| 0 <= k < presets.pairs().len() ==> presets@.contains_key(#[trigger] presets.pairs()[k].0),
                i <= presets.pairs().len(),
                r@.len() == i,
                forall|k: int| 0 <= k < i ==> #[trigger] r@[k].0@ == presets.pairs()[k].0 && opt_view(r@[k].1) == presets.pairs()[k].1.app_name,
            decreases presets.pairs().len() - i,
        {
            let k = presets.key_at(i).clone();
            let a = copy_opt_string(&presets.value_at(i).app_name);
            r.push((k, a));
            i = i + 1;
        }
        proof {
            assert forall|a: int, b: int| 0 <= a < b < r@.len() implies r@[a].0@ != r@[b].0@ by {
                assert(r@[a].0@ == presets.pairs()[a].0);
                assert(r@[b].0@ == presets.pairs()[b].0);
            }
            assert forall|k: Seq<char>|
                #[trigger] self.config()@.presets.contains_key(k) implies exists|i: int|
                    0 <= i < r@.len() && r@[i].0@ == k by {
                let i = choose|i: int| 0 <= i < presets.pairs().len() && presets.pairs()[i].0 == k;
                assert(r@[i].0@ == k);
            }
            assert forall|k: int| 0 <= k < r@.len() implies self.config()@.presets.contains_key(#[trigger] r@[k].0@)
                && opt_view(r@[k].1) == self.config()@.presets[r@[k].0@].app_name by {
                assert(r@[k].0@ == presets.pairs()[k].0);
            }
        }
        r
    }

    /// Whether a preset has this name.
    pub fn preset_exists(&self, name: &str) -> (r: bool)
        ensures
            r == self.config()@.presets.contains_key(name@),
    {
        self.config.presets.contains_key(name)
    }
}

} // verus!
