use jiff::Error as JiffError;
use toml::de::Error as TomlDeError;
use toml::ser::Error as TomlSerError;
use vstd::prelude::*;

verus! {

/// `jiff::Error`, carried unopened in `Error::Span`.
#[verifier::external_type_specification]
#[verifier::external_body]
pub struct ExJiffError(JiffError);

/// `std::io::Error`, carried unopened in `Error::Io`.
#[verifier::external_type_specification]
#[verifier::external_body]
pub struct ExIoError(std::io::Error);

/// `toml::de::Error`, carried unopened in `Error::TomlDe`.
#[verifier::external_type_specification]
#[verifier::external_body]
pub struct ExTomlDeError(TomlDeError);

/// `toml::ser::Error`, carried unopened in `Error::TomlSer`.
#[verifier::external_type_specification]
#[verifier::external_body]
pub struct ExTomlSerError(TomlSerError);

/// Every way in which an operation of the tracker can fail.
#[derive(Debug)]
pub enum Error {
    /// No app with this name is registered.
    AppNotFound(String),
    /// An app with this name is already registered.
    AppExists(String),
    /// The platform has no per-user configuration directory.
    NoConfigDir,
    /// The configuration directory path exists but is not a directory.
    InvalidConfigDir,
    /// The configuration file path exists but is not a regular file.
    InvalidConfigFile,
    /// Reading or writing the configuration file failed.
    Io(std::io::Error),
    /// The configuration file could not be parsed.
    TomlDe(toml::de::Error),
    /// The configuration could not be written out as text.
    TomlSer(toml::ser::Error),
    /// A time computation overflowed or was refused.
    Span(jiff::Error),
}

} // verus!
