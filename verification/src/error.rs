//! Errors of the library, each with the text that users see.

use vstd::prelude::*;
use crate::text::{chars_of, push_all, push_str, string_of};

verus! {

/// Why a configuration file could not be used.
#[derive(Debug)]
pub enum ConfigError {
    /// The file could not be read.
    Io(String),
    /// The file is not valid TOML.
    Parse(String),
}

/// Failure of a library operation.
#[derive(Debug)]
pub enum Error {
    /// Failed to read or parse optional TOML configuration.
    Config {
        /// Path that failed to load.
        path: String,
        /// Underlying I/O or parse error.
        source: ConfigError,
    },
    /// Chromecast mDNS discovery failure (non-fatal at process level).
    Discovery(String),
    /// Local media HTTP server failure.
    Media(String),
    /// Cast control-plane failure.
    Cast(String),
    /// AirPlay receiver failure.
    AirPlay(String),
    /// Audio encode or buffer failure.
    Audio(String),
    /// Bridge session orchestration failure.
    Bridge(String),
    /// I/O error with context.
    Io(String),
}

impl ConfigError {
    /// The text of the error.
    pub open spec fn text(&self) -> Seq<char> {
        match self {
            ConfigError::Io(m) => m@,
            ConfigError::Parse(m) => "TOML parse error: "@ + m@,
        }
    }

    /// The text of the error.
    pub fn message(&self) -> (r: String)
        ensures
            r@ == self.text(),
    {
        match self {
            ConfigError::Io(m) => m.clone(),
            ConfigError::Parse(m) => joined("TOML parse error: ", m.as_str()),
        }
    }
}

impl Error {
    /// The text of the error: its kind, a colon and the detail.
    pub open spec fn text(&self) -> Seq<char> {
        match self {
            Error::Config { path, source } => "config error at "@ + path@ + ": "@ + source.text(),
            Error::Discovery(m) => "discovery error: "@ + m@,
            Error::Media(m) => "media server error: "@ + m@,
            Error::Cast(m) => "cast error: "@ + m@,
            Error::AirPlay(m) => "airplay error: "@ + m@,
            Error::Audio(m) => "audio error: "@ + m@,
            Error::Bridge(m) => "bridge error: "@ + m@,
            Error::Io(m) => "I/O error: "@ + m@,
        }
    }

    /// The text of the error.
    pub fn message(&self) -> (r: String)
        ensures
            r@ == self.text(),
    {
        match self {
            Error::Config { path, source } => {
                let detail = source.message();
                let mut out = chars_of("config error at ");
                push_str(&mut out, path.as_str());
                push_str(&mut out, ": ");
                push_str(&mut out, detail.as_str());
                string_of(out.as_slice())
            },
            Error::Discovery(m) => joined("discovery error: ", m.as_str()),
            Error::Media(m) => joined("media server error: ", m.as_str()),
            Error::Cast(m) => joined("cast error: ", m.as_str()),
            Error::AirPlay(m) => joined("airplay error: ", m.as_str()),
            Error::Audio(m) => joined("audio error: ", m.as_str()),
            Error::Bridge(m) => joined("bridge error: ", m.as_str()),
            Error::Io(m) => joined("I/O error: ", m.as_str()),
        }
    }
}

/// `a` followed by `b`.
pub fn joined(a: &str, b: &str) -> (r: String)
    ensures
        r@ == a@ + b@,
{
    let mut out = chars_of(a);
    let tail = chars_of(b);
    push_all(&mut out, tail.as_slice());
    string_of(out.as_slice())
}

/// Every error is told by the part that failed, a colon and the words given; one of the
/// configuration names the file as well, and a parse error says that it is one.
pub proof fn law_errors_name_what_failed(words: String, path: String)
    ensures
        Error::Discovery(words).text() == "discovery error: "@ + words@,
        Error::Media(words).text() == "media server error: "@ + words@,
        Error::Cast(words).text() == "cast error: "@ + words@,
        Error::AirPlay(words).text() == "airplay error: "@ + words@,
        Error::Audio(words).text() == "audio error: "@ + words@,
        Error::Bridge(words).text() == "bridge error: "@ + words@,
        Error::Io(words).text() == "I/O error: "@ + words@,
        (Error::Config { path, source: ConfigError::Io(words) }).text() == "config error at "@
            + path@ + ": "@ + words@,
        (Error::Config { path, source: ConfigError::Parse(words) }).text() == "config error at "@
            + path@ + ": "@ + ("TOML parse error: "@ + words@),
{
}

} // verus!
