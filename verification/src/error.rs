//! The library's error type, and the text each error is shown with.
use crate::text::joined;
use toml::de::Error as TomlDeError;
use vstd::prelude::*;

verus! {

/// An I/O error from the standard library.
#[verifier::external_type_specification]
#[verifier::external_body]
pub struct ExIoError(std::io::Error);

/// A TOML syntax or schema error.
#[verifier::external_type_specification]
#[verifier::external_body]
pub struct ExTomlError(TomlDeError);

/// `Display` of an I/O error (`std::io::Error`); its text comes from the
/// operating system, so nothing is stated of it.
#[verifier::external_body]
pub(crate) fn io_error_text(e: &std::io::Error) -> (r: String) {
    format!("{e}")
}

/// `Display` of a TOML error (`toml::de::Error`): the message with the
/// offending line; nothing is stated of its text.
#[verifier::external_body]
pub(crate) fn toml_error_text(e: &TomlDeError) -> (r: String) {
    format!("{e}")
}

/// Any failure of the library.
#[derive(Debug)]
pub enum Error {
    /// Reading or writing a file, socket or directory failed.
    Io(std::io::Error),
    /// The configuration is not valid TOML or does not fit the schema.
    ConfigParse(TomlDeError),
    /// The platform has no configuration directory.
    ConfigDirNotFound,
    /// A `source = "..."` chain includes this file again.
    CyclicInclude(String),
    /// Rendering or serializing failed.
    Format(String),
    /// A path given by the user does not exist or cannot be used.
    InvalidPath(String),
    /// No preset has this name.
    PresetNotFound(String),
    /// A preset names this level, which is not a level.
    InvalidLevel(String),
}

/// The text of an error that carries no outside value.
pub open spec fn spec_error_text(e: &Error) -> Option<Seq<char>> {
    match e {
        Error::Io(_) => None,
        Error::ConfigParse(_) => None,
        Error::ConfigDirNotFound => Some("config directory not found"@),
        Error::CyclicInclude(p) => Some("cyclic include: "@ + p@),
        Error::Format(s) => Some("format error: "@ + s@),
        Error::InvalidPath(s) => Some("invalid path: "@ + s@),
        Error::PresetNotFound(n) => Some("preset not found: "@ + n@),
        Error::InvalidLevel(l) => Some("invalid level in preset: "@ + l@),
    }
}


impl Error {
    /// The text shown for the error.
    pub fn message(&self) -> (r: String)
        ensures
            spec_error_text(self) matches Some(t) ==> r@ == t,
            self is Io ==> exists|t: Seq<char>| r@ == "I/O error: "@ + t,
            self is ConfigParse ==> exists|t: Seq<char>| r@ == "parse error: "@ + t,
    {
        match self {
            Error::Io(e) => {
                let t = io_error_text(e);
                joined("I/O error: ", t.as_str())
            },
            Error::ConfigParse(e) => {
                let t = toml_error_text(e);
                joined("parse error: ", t.as_str())
            },
            Error::ConfigDirNotFound => crate::text::owned("config directory not found"),
            Error::CyclicInclude(p) => joined("cyclic include: ", p.as_str()),
            Error::Format(s) => joined("format error: ", s.as_str()),
            Error::InvalidPath(s) => joined("invalid path: ", s.as_str()),
            Error::PresetNotFound(n) => joined("preset not found: ", n.as_str()),
            Error::InvalidLevel(l) => joined("invalid level in preset: ", l.as_str()),
        }
    }
}

impl From<std::io::Error> for Error {
    fn from(e: std::io::Error) -> (r: Error) {
        Error::Io(e)
    }
}

impl vstd::std_specs::convert::FromSpecImpl<std::io::Error> for Error {
    open spec fn obeys_from_spec() -> bool {
        true
    }

    open spec fn from_spec(v: std::io::Error) -> Error {
        Error::Io(v)
    }
}

impl From<TomlDeError> for Error {
    fn from(e: TomlDeError) -> (r: Error) {
        Error::ConfigParse(e)
    }
}

impl vstd::std_specs::convert::FromSpecImpl<TomlDeError> for Error {
    open spec fn obeys_from_spec() -> bool {
        true
    }

    open spec fn from_spec(v: TomlDeError) -> Error {
        Error::ConfigParse(v)
    }
}

} // verus!
