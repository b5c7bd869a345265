//! Failures of talking to the compositor.
use crate::error::io_error_text;
use crate::text::{joined, owned};
use vstd::prelude::*;

verus! {

/// A failure of a request to the compositor.
#[derive(Debug)]
pub enum HyprlandError {
    /// The socket directory does not exist.
    SocketNotFound,
    /// Connecting to the socket failed.
    ConnectionFailed(std::io::Error),
    /// `HYPRLAND_INSTANCE_SIGNATURE` is not set.
    NoInstanceSignature,
    /// `XDG_RUNTIME_DIR` is not set.
    NoRuntimeDir,
    /// The compositor answered with an error.
    CommandFailed(String),
    /// The answer could not be read.
    ParseError(String),
}

/// The text of an error that carries no outside value.
pub open spec fn spec_hyprland_error_text(e: &HyprlandError) -> Option<Seq<char>> {
    match e {
        HyprlandError::SocketNotFound => Some("Hyprland socket directory not found"@),
        HyprlandError::ConnectionFailed(_) => None,
        HyprlandError::NoInstanceSignature => Some(
            "HYPRLAND_INSTANCE_SIGNATURE not set (is Hyprland running?)"@,
        ),
        HyprlandError::NoRuntimeDir => Some("XDG_RUNTIME_DIR not set"@),
        HyprlandError::CommandFailed(m) => Some("command failed: "@ + m@),
        HyprlandError::ParseError(m) => Some("parse error: "@ + m@),
    }
}


impl HyprlandError {
    /// The text shown for the error.
    pub fn message(&self) -> (r: String)
        ensures
            spec_hyprland_error_text(self) matches Some(t) ==> r@ == t,
            self is ConnectionFailed ==> exists|t: Seq<char>|
                r@ == "failed to connect to Hyprland socket: "@ + t,
    {
        match self {
            HyprlandError::SocketNotFound => owned("Hyprland socket directory not found"),
            HyprlandError::ConnectionFailed(e) => {
                let t = io_error_text(e);
                joined("failed to connect to Hyprland socket: ", t.as_str())
            },
            HyprlandError::NoInstanceSignature => owned(
                "HYPRLAND_INSTANCE_SIGNATURE not set (is Hyprland running?)",
            ),
            HyprlandError::NoRuntimeDir => owned("XDG_RUNTIME_DIR not set"),
            HyprlandError::CommandFailed(m) => joined("command failed: ", m.as_str()),
            HyprlandError::ParseError(m) => joined("parse error: ", m.as_str()),
        }
    }
}

impl From<std::io::Error> for HyprlandError {
    fn from(e: std::io::Error) -> (r: HyprlandError) {
        HyprlandError::ConnectionFailed(e)
    }
}

impl vstd::std_specs::convert::FromSpecImpl<std::io::Error> for HyprlandError {
    open spec fn obeys_from_spec() -> bool {
        true
    }

    open spec fn from_spec(v: std::io::Error) -> HyprlandError {
        HyprlandError::ConnectionFailed(v)
    }
}

} // verus!
