//! Failures of loading a configuration file.
use crate::error::{io_error_text, toml_error_text};
use crate::text::{joined, owned};
use toml::de::Error as TomlDeError;
use vstd::prelude::*;

verus! {

/// A failure of reading, parsing or locating a configuration file.
#[derive(Debug)]
pub enum ConfigError {
    /// Reading the file failed.
    Io(std::io::Error),
    /// The file is not valid TOML or does not fit the schema.
    Parse(TomlDeError),
    /// The platform has no configuration directory.
    ConfigDirNotFound,
    /// A `source = "..."` chain includes this file again.
    CyclicInclude(String),
}


impl ConfigError {
    /// The text shown for the error.
    pub fn message(&self) -> (r: String)
        ensures
            self is ConfigDirNotFound ==> r@ == "config directory not found"@,
            self matches ConfigError::CyclicInclude(p) ==> r@ == "cyclic include: "@ + p@,
            self is Io ==> exists|t: Seq<char>| r@ == "I/O error: "@ + t,
            self is Parse ==> exists|t: Seq<char>| r@ == "parse error: "@ + t,
    {
        match self {
            ConfigError::Io(e) => {
                let t = io_error_text(e);
                joined("I/O error: ", t.as_str())
            },
            ConfigError::Parse(e) => {
                let t = toml_error_text(e);
                joined("parse error: ", t.as_str())
            },
            ConfigError::ConfigDirNotFound => owned("config directory not found"),
            ConfigError::CyclicInclude(p) => joined("cyclic include: ", p.as_str()),
        }
    }
}

impl From<std::io::Error> for ConfigError {
    fn from(e: std::io::Error) -> (r: ConfigError) {
        ConfigError::Io(e)
    }
}

impl vstd::std_specs::convert::FromSpecImpl<std::io::Error> for ConfigError {
    open spec fn obeys_from_spec() -> bool {
        true
    }

    open spec fn from_spec(v: std::io::Error) -> ConfigError {
        ConfigError::Io(v)
    }
}

impl From<TomlDeError> for ConfigError {
    fn from(e: TomlDeError) -> (r: ConfigError) {
        ConfigError::Parse(e)
    }
}

impl vstd::std_specs::convert::FromSpecImpl<TomlDeError> for ConfigError {
    open spec fn obeys_from_spec() -> bool {
        true
    }

    open spec fn from_spec(v: TomlDeError) -> ConfigError {
        ConfigError::Parse(v)
    }
}

} // verus!
