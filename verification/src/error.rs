//! The library's error type.

use vstd::prelude::*;
use vstd::string::StringExecFns;

verus! {

/// What can go wrong. Errors that come from the operating system or from a
/// parser carry that error's message.
#[derive(Clone, Debug, PartialEq)]
pub enum RiceForgeError {
    Io(String),
    Json(String),
    Toml(String),
    Git(String),
    Http(String),
    NotFound(String),
    AlreadyInstalled(String),
    NotInstalled(String),
    NoBackup(String),
    UnsupportedPlatform,
    PackageManager(String),
    Backup(String),
    Deploy(String),
    Pipeline(String),
}

/// The message shown for an error: a fixed prefix, then the detail.
pub open spec fn error_message(e: RiceForgeError) -> Seq<char> {
    match e {
        RiceForgeError::Io(s) => "io: "@ + s@,
        RiceForgeError::Json(s) => "json: "@ + s@,
        RiceForgeError::Toml(s) => "toml: "@ + s@,
        RiceForgeError::Git(s) => "git: "@ + s@,
        RiceForgeError::Http(s) => "http: "@ + s@,
        RiceForgeError::NotFound(s) => "not found: "@ + s@,
        RiceForgeError::AlreadyInstalled(s) => "already installed: "@ + s@,
        RiceForgeError::NotInstalled(s) => "not installed: "@ + s@,
        RiceForgeError::NoBackup(s) => "no backup found: "@ + s@,
        RiceForgeError::UnsupportedPlatform => "unsupported platform \u{2014} Linux required"@,
        RiceForgeError::PackageManager(s) => "package manager: "@ + s@,
        RiceForgeError::Backup(s) => "backup: "@ + s@,
        RiceForgeError::Deploy(s) => "deploy: "@ + s@,
        RiceForgeError::Pipeline(s) => "pipeline: "@ + s@,
    }
}

impl RiceForgeError {
    /// The message shown for this error.
    pub fn message(&self) -> (r: String)
        ensures
            r@ == error_message(*self),
    {
        match self {
            RiceForgeError::Io(s) => String::from_str("io: ").concat(s.as_str()),
            RiceForgeError::Json(s) => String::from_str("json: ").concat(s.as_str()),
            RiceForgeError::Toml(s) => String::from_str("toml: ").concat(s.as_str()),
            RiceForgeError::Git(s) => String::from_str("git: ").concat(s.as_str()),
            RiceForgeError::Http(s) => String::from_str("http: ").concat(s.as_str()),
            RiceForgeError::NotFound(s) => String::from_str("not found: ").concat(s.as_str()),
            RiceForgeError::AlreadyInstalled(s) => String::from_str("already installed: ").concat(
                s.as_str(),
            ),
            RiceForgeError::NotInstalled(s) => String::from_str("not installed: ").concat(s.as_str()),
            RiceForgeError::NoBackup(s) => String::from_str("no backup found: ").concat(s.as_str()),
            RiceForgeError::UnsupportedPlatform => String::from_str(
                "unsupported platform \u{2014} Linux required",
            ),
            RiceForgeError::PackageManager(s) => String::from_str("package manager: ").concat(
                s.as_str(),
            ),
            RiceForgeError::Backup(s) => String::from_str("backup: ").concat(s.as_str()),
            RiceForgeError::Deploy(s) => String::from_str("deploy: ").concat(s.as_str()),
            RiceForgeError::Pipeline(s) => String::from_str("pipeline: ").concat(s.as_str()),
        }
    }
}

} // verus!
