//! Error types for version generation operations.
//!
//! Provides [`VersionError`] as the unified error enum and [`VResult`]
//! as a convenience alias for `Result<T, VersionError>`.
use vstd::prelude::*;

use vstd::std_specs::convert::FromSpecImpl;

use crate::text::push_str;
use crate::text::string_of;

verus! {

broadcast use vstd::string::group_string_axioms;

#[verifier::external_type_specification]
#[verifier::external_body]
pub struct ExParseIntError(std::num::ParseIntError);

#[verifier::external_type_specification]
#[verifier::external_body]
pub struct ExIoError(std::io::Error);

#[verifier::external_type_specification]
#[verifier::external_body]
pub struct ExFromUtf8Error(std::string::FromUtf8Error);

#[verifier::external_type_specification]
#[verifier::external_body]
pub struct ExStripPrefixError(std::path::StripPrefixError);

/// Convenience alias for `Result<T, VersionError>`.
pub type VResult<T> = Result<T, VersionError>;

/// Why reading an environment variable failed.
#[derive(Debug)]
pub enum EnvVarError {
    /// The variable is not set.
    NotPresent,
    /// The variable's value is not valid Unicode; holds that value as
    /// `{:?}` renders it.
    NotUnicode(String),
}

/// 版本/构建相关错误的统一类型。
#[derive(Debug)]
pub enum VersionError {
    /// I/O error (file read/write failures).
    Io(std::io::Error),
    /// UTF-8 conversion error.
    Utf8(std::string::FromUtf8Error),
    /// Environment variable error (missing or invalid `OUT_DIR`, etc.).
    Env(EnvVarError),
    /// Integer parsing error (version number, timestamp, etc.).
    ParseInt(std::num::ParseIntError),
    /// Path prefix stripping error (computing relative paths).
    StripPrefix(std::path::StripPrefixError),
    /// 字符串形式错误信息（如业务逻辑中的错误描述）。
    Message(String),
    /// Git CLI command execution failure (non-zero exit code).
    GitCommand(String),
}

/// The message of an I/O error (`Display`).  Nothing is claimed of it.
#[verifier::external_body]
fn io_error_text(e: &std::io::Error) -> String {
    format!("{e}")
}

/// The message of a UTF-8 conversion error (`Display`).  Nothing is
/// claimed of it.
#[verifier::external_body]
fn utf8_error_text(e: &std::string::FromUtf8Error) -> String {
    format!("{e}")
}

/// The message of an integer parsing error (`Display`).  Nothing is
/// claimed of it.
#[verifier::external_body]
fn parse_int_error_text(e: &std::num::ParseIntError) -> String {
    format!("{e}")
}

/// The message of a path prefix error (`Display`).  Nothing is claimed
/// of it.
#[verifier::external_body]
fn strip_prefix_error_text(e: &std::path::StripPrefixError) -> String {
    format!("{e}")
}

impl EnvVarError {
    /// The message of the error, as `std::env::VarError` shows it.
    pub fn to_string(&self) -> (r: String)
        ensures
            self is NotPresent ==> r@ == "environment variable not found"@,
            self matches EnvVarError::NotUnicode(v) ==> r@
                == "environment variable was not valid unicode: "@ + v@,
    {
        match self {
            EnvVarError::NotPresent => string_of("environment variable not found"),
            EnvVarError::NotUnicode(v) => {
                let mut r = string_of("environment variable was not valid unicode: ");
                push_str(&mut r, v.as_str());
                r
            },
        }
    }
}

impl VersionError {
    /// 从任意实现了 `Error` 的类型构造为 `Message` 变体。
    ///
    /// The message is what the error's `Display` shows; nothing is claimed
    /// of that text.
    #[verifier::external_body]
    pub fn new<E: std::error::Error + Send + Sync + 'static>(err: E) -> (r: Self)
        ensures
            r is Message,
    {
        Self::Message(err.to_string())
    }

    /// The message of the error, as its `Display` shows it: the wrapped
    /// error's own message, the text of `Message`, or
    /// `"git command failed: "` before the text of `GitCommand`.
    pub fn to_string(&self) -> (r: String)
        ensures
            self matches VersionError::Message(m) ==> r@ == m@,
            self matches VersionError::GitCommand(m) ==> r@ == "git command failed: "@ + m@,
            self matches VersionError::Env(EnvVarError::NotPresent) ==> r@
                == "environment variable not found"@,
            self matches VersionError::Env(EnvVarError::NotUnicode(v)) ==> r@
                == "environment variable was not valid unicode: "@ + v@,
    {
        match self {
            VersionError::Io(e) => io_error_text(e),
            VersionError::Utf8(e) => utf8_error_text(e),
            VersionError::Env(e) => e.to_string(),
            VersionError::ParseInt(e) => parse_int_error_text(e),
            VersionError::StripPrefix(e) => strip_prefix_error_text(e),
            VersionError::Message(m) => string_of(m.as_str()),
            VersionError::GitCommand(m) => {
                let mut r = string_of("git command failed: ");
                push_str(&mut r, m.as_str());
                r
            },
        }
    }
}

impl From<String> for VersionError {
    fn from(s: String) -> (r: Self) {
        Self::Message(s)
    }
}

impl FromSpecImpl<String> for VersionError {
    open spec fn obeys_from_spec() -> bool {
        true
    }

    open spec fn from_spec(s: String) -> Self {
        VersionError::Message(s)
    }
}

impl From<&str> for VersionError {
    fn from(s: &str) -> (r: Self)
        ensures
            r matches VersionError::Message(m) && m@ == s@,
    {
        Self::Message(string_of(s))
    }
}

impl FromSpecImpl<&str> for VersionError {
    open spec fn obeys_from_spec() -> bool {
        false
    }

    open spec fn from_spec(s: &str) -> Self {
        VersionError::Message(choose|m: String| m@ == s@)
    }
}

impl From<std::io::Error> for VersionError {
    fn from(e: std::io::Error) -> (r: Self) {
        Self::Io(e)
    }
}

impl FromSpecImpl<std::io::Error> for VersionError {
    open spec fn obeys_from_spec() -> bool {
        true
    }

    open spec fn from_spec(e: std::io::Error) -> Self {
        VersionError::Io(e)
    }
}

impl From<std::string::FromUtf8Error> for VersionError {
    fn from(e: std::string::FromUtf8Error) -> (r: Self) {
        Self::Utf8(e)
    }
}

impl FromSpecImpl<std::string::FromUtf8Error> for VersionError {
    open spec fn obeys_from_spec() -> bool {
        true
    }

    open spec fn from_spec(e: std::string::FromUtf8Error) -> Self {
        VersionError::Utf8(e)
    }
}

impl From<EnvVarError> for VersionError {
    fn from(e: EnvVarError) -> (r: Self) {
        Self::Env(e)
    }
}

impl FromSpecImpl<EnvVarError> for VersionError {
    open spec fn obeys_from_spec() -> bool {
        true
    }

    open spec fn from_spec(e: EnvVarError) -> Self {
        VersionError::Env(e)
    }
}

impl From<std::num::ParseIntError> for VersionError {
    fn from(e: std::num::ParseIntError) -> (r: Self) {
        Self::ParseInt(e)
    }
}

impl FromSpecImpl<std::num::ParseIntError> for VersionError {
    open spec fn obeys_from_spec() -> bool {
        true
    }

    open spec fn from_spec(e: std::num::ParseIntError) -> Self {
        VersionError::ParseInt(e)
    }
}

impl From<std::path::StripPrefixError> for VersionError {
    fn from(e: std::path::StripPrefixError) -> (r: Self) {
        Self::StripPrefix(e)
    }
}

impl FromSpecImpl<std::path::StripPrefixError> for VersionError {
    open spec fn obeys_from_spec() -> bool {
        true
    }

    open spec fn from_spec(e: std::path::StripPrefixError) -> Self {
        VersionError::StripPrefix(e)
    }
}

impl From<std::convert::Infallible> for VersionError {
    /// No value of `Infallible` exists, so this is never called.
    fn from(x: std::convert::Infallible) -> (r: Self) {
        VersionError::Message(String::new())
    }
}

impl FromSpecImpl<std::convert::Infallible> for VersionError {
    open spec fn obeys_from_spec() -> bool {
        false
    }

    open spec fn from_spec(x: std::convert::Infallible) -> Self {
        VersionError::Message(vstd::pervasive::arbitrary())
    }
}

} // verus!
