//! Error types.

use vstd::prelude::*;
use vstd::std_specs::convert::FromSpecImpl;

verus! {

/// A failure to read TOML, as `toml` reports it. Nothing is known of its
/// contents here.
#[verifier::external_type_specification]
#[verifier::external_body]
pub struct ExTomlError(toml::de::Error);

/// A failure of the chat gateway, as `serenity` reports it. Nothing is known
/// of its contents here.
#[verifier::external_type_specification]
#[verifier::external_body]
pub struct ExSerenityError(serenity::Error);

/// A failure to read or write JSON, as `serde_json` reports it. Nothing is
/// known of its contents here.
#[verifier::external_type_specification]
#[verifier::external_body]
pub struct ExSerdeJsonError(serde_json::Error);

/// A failure of input or output, as `std` reports it. Nothing is known of
/// its contents here.
#[verifier::external_type_specification]
#[verifier::external_body]
pub struct ExIoError(std::io::Error);

/// A failure to read a string slice as UTF-8, as `std` reports it. Nothing
/// is known of its contents here.
#[verifier::external_type_specification]
#[verifier::external_body]
pub struct ExUtf8Error(std::str::Utf8Error);

/// A failure to read bytes as a UTF-8 string, as `std` reports it. Nothing
/// is known of its contents here.
#[verifier::external_type_specification]
#[verifier::external_body]
pub struct ExFromUtf8Error(std::string::FromUtf8Error);

/// A failure to read an integer, as `std` reports it. Nothing is known of
/// its contents here.
#[verifier::external_type_specification]
#[verifier::external_body]
pub struct ExParseIntError(std::num::ParseIntError);

/// Plugin load errors.
#[derive(Debug, PartialEq)]
#[non_exhaustive]
pub enum TheiaPluginLoadError {
    /// The plugin path does not exist or does not contain a plugin config.
    NotFound,
    /// The plugin config failed to parse.
    ConfigParseError(toml::de::Error),
}

/// Plugin run errors.
#[derive(Debug, PartialEq)]
#[non_exhaustive]
pub enum TheiaPluginRunError {
    /// The plugin exited with a status other than zero.
    ExitStatus(i32),
    /// The plugin was terminated by a signal.
    Terminated,
    /// The plugin did not end within the time it was given.
    TimedOut,
}

/// Command line errors.
#[derive(Debug, PartialEq)]
#[non_exhaustive]
pub enum TheiaCliError {
    /// No subcommand was given.
    NoSubcommand,
    /// The subcommand is not known.
    UnknownSubcommand(String),
}

/// The core error type.
#[derive(Debug)]
#[non_exhaustive]
pub enum TheiaError {
    /// The configuration file was not found.
    ConfigNotFound,
    /// The configuration failed to parse.
    ConfigParseError(toml::de::Error),
    /// No bot token was provided.
    NoDiscordToken,
    /// The plugin at the given path failed to load.
    PluginLoad(String, TheiaPluginLoadError),
    /// The plugin of the given name failed to run.
    PluginRun(String, TheiaPluginRunError),
    /// The chat gateway failed.
    SerenityError(serenity::Error),
    /// JSON could not be written or read.
    SerdeJsonError(serde_json::Error),
    /// Input or output failed.
    IoError(std::io::Error),
    /// A string slice was not UTF-8.
    Utf8Error(std::str::Utf8Error),
    /// Bytes were not a UTF-8 string.
    FromUtf8Error(std::string::FromUtf8Error),
    /// An integer could not be read.
    ParseIntError(std::num::ParseIntError),
    /// An unknown error occurred.
    UnknownError,
}

impl From<serenity::Error> for TheiaError {
    fn from(se: serenity::Error) -> (r: TheiaError) {
        TheiaError::SerenityError(se)
    }
}

impl FromSpecImpl<serenity::Error> for TheiaError {
    open spec fn obeys_from_spec() -> bool {
        true
    }

    open spec fn from_spec(se: serenity::Error) -> TheiaError {
        TheiaError::SerenityError(se)
    }
}

impl From<serde_json::Error> for TheiaError {
    fn from(se: serde_json::Error) -> (r: TheiaError) {
        TheiaError::SerdeJsonError(se)
    }
}

impl FromSpecImpl<serde_json::Error> for TheiaError {
    open spec fn obeys_from_spec() -> bool {
        true
    }

    open spec fn from_spec(se: serde_json::Error) -> TheiaError {
        TheiaError::SerdeJsonError(se)
    }
}

impl From<std::io::Error> for TheiaError {
    fn from(se: std::io::Error) -> (r: TheiaError) {
        TheiaError::IoError(se)
    }
}

impl FromSpecImpl<std::io::Error> for TheiaError {
    open spec fn obeys_from_spec() -> bool {
        true
    }

    open spec fn from_spec(se: std::io::Error) -> TheiaError {
        TheiaError::IoError(se)
    }
}

impl From<std::str::Utf8Error> for TheiaError {
    fn from(se: std::str::Utf8Error) -> (r: TheiaError) {
        TheiaError::Utf8Error(se)
    }
}

impl FromSpecImpl<std::str::Utf8Error> for TheiaError {
    open spec fn obeys_from_spec() -> bool {
        true
    }

    open spec fn from_spec(se: std::str::Utf8Error) -> TheiaError {
        TheiaError::Utf8Error(se)
    }
}

impl From<std::string::FromUtf8Error> for TheiaError {
    fn from(se: std::string::FromUtf8Error) -> (r: TheiaError) {
        TheiaError::FromUtf8Error(se)
    }
}

impl FromSpecImpl<std::string::FromUtf8Error> for TheiaError {
    open spec fn obeys_from_spec() -> bool {
        true
    }

    open spec fn from_spec(se: std::string::FromUtf8Error) -> TheiaError {
        TheiaError::FromUtf8Error(se)
    }
}

impl From<std::num::ParseIntError> for TheiaError {
    fn from(se: std::num::ParseIntError) -> (r: TheiaError) {
        TheiaError::ParseIntError(se)
    }
}

impl FromSpecImpl<std::num::ParseIntError> for TheiaError {
    open spec fn obeys_from_spec() -> bool {
        true
    }

    open spec fn from_spec(se: std::num::ParseIntError) -> TheiaError {
        TheiaError::ParseIntError(se)
    }
}

} // verus!
