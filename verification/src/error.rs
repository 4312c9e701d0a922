//! The library's error type.

use vstd::prelude::*;

use crate::text::{owned, push_str};

verus! {

/// What went wrong; each variant carries the message of its cause.
#[derive(Debug, Clone, PartialEq, Eq)]
pub enum Error {
    Io(String),
    ZipCrawl(String),
    Json(String),
    Toml(String),
    Yaml(String),
    UnsupportedMetadata(String),
    ClassFile(String),
    Parse(String),
}

/// The library's result type.
pub type Result<T> = std::result::Result<T, Error>;

/// The message shown for an error.
pub open spec fn error_text(e: Error) -> Seq<char> {
    match e {
        Error::Io(m) => "I/O error: "@ + m@,
        Error::ZipCrawl(_) => "ZipCrawl error"@,
        Error::Json(m) => "JSON error: "@ + m@,
        Error::Toml(m) => "TOML error: "@ + m@,
        Error::Yaml(m) => "YAML error: "@ + m@,
        Error::UnsupportedMetadata(m) => "Unsupported metadata format for "@ + m@,
        Error::ClassFile(m) => "Class file error: "@ + m@,
        Error::Parse(m) => "Parse error: "@ + m@,
    }
}

/// The diagnostic code of an error.
pub open spec fn error_code(e: Error) -> Seq<char> {
    match e {
        Error::Io(_) => "modcrawl::io"@,
        Error::ZipCrawl(_) => "modcrawl::zipcrawl"@,
        Error::Json(_) => "modcrawl::json"@,
        Error::Toml(_) => "modcrawl::toml"@,
        Error::Yaml(_) => "modcrawl::yaml"@,
        Error::UnsupportedMetadata(_) => "modcrawl::unsupported_metadata"@,
        Error::ClassFile(_) => "modcrawl::classfile"@,
        Error::Parse(_) => "modcrawl::parse"@,
    }
}

/// `prefix` followed by `m`.
fn prefixed(prefix: &str, m: &String) -> (r: String)
    ensures
        r@ == prefix@ + m@,
{
    let mut out = owned(prefix);
    push_str(&mut out, m.as_str());
    out
}

impl Error {
    /// The message shown for this error.
    pub fn to_string(&self) -> (r: String)
        ensures
            r@ == error_text(*self),
    {
        match self {
            Error::Io(m) => prefixed("I/O error: ", m),
            Error::ZipCrawl(_) => owned("ZipCrawl error"),
            Error::Json(m) => prefixed("JSON error: ", m),
            Error::Toml(m) => prefixed("TOML error: ", m),
            Error::Yaml(m) => prefixed("YAML error: ", m),
            Error::UnsupportedMetadata(m) => prefixed("Unsupported metadata format for ", m),
            Error::ClassFile(m) => prefixed("Class file error: ", m),
            Error::Parse(m) => prefixed("Parse error: ", m),
        }
    }

    /// The diagnostic code of this error.
    pub fn code(&self) -> (r: &'static str)
        ensures
            r@ == error_code(*self),
    {
        match self {
            Error::Io(_) => "modcrawl::io",
            Error::ZipCrawl(_) => "modcrawl::zipcrawl",
            Error::Json(_) => "modcrawl::json",
            Error::Toml(_) => "modcrawl::toml",
            Error::Yaml(_) => "modcrawl::yaml",
            Error::UnsupportedMetadata(_) => "modcrawl::unsupported_metadata",
            Error::ClassFile(_) => "modcrawl::classfile",
            Error::Parse(_) => "modcrawl::parse",
        }
    }
}

} // verus!
