//! The library's error type.
use vstd::prelude::*;

use crate::text::{concat, decimal, push_decimal};

verus! {

/// Why a glob pattern does not compile: where in the pattern, and what is wrong.
#[derive(Debug)]
pub struct GlobError {
    /// The approximate character index of the error.
    pub pos: usize,
    /// What is wrong.
    pub msg: String,
}

/// The text of a glob error, as the `glob` crate writes it.
pub open spec fn glob_error_text(e: GlobError) -> Seq<char> {
    "Pattern syntax error near position "@ + decimal(e.pos as nat) + ": "@ + e.msg@
}

/// Every way an operation of the library can fail.
#[derive(Debug)]
pub enum StowawayError {
    /// A file-system operation failed; holds the operating system's message.
    Io(String),
    Config(String),
    Validation(String),
    Interpolation(String),
    Store(String),
    Linking(String),
    Conflict(String),
    /// The configuration file is not valid YAML for a configuration; holds the parser's message.
    Yaml(String),
    /// A glob pattern of the configuration does not compile.
    Glob(GlobError),
    /// Walking a directory tree failed; holds the walker's message.
    WalkDir(String),
}

/// The prefix of the message of each kind of error.
pub open spec fn error_prefix(e: StowawayError) -> Seq<char> {
    match e {
        StowawayError::Io(_) => "IO error: "@,
        StowawayError::Config(_) => "Configuration error: "@,
        StowawayError::Validation(_) => "Validation error: "@,
        StowawayError::Interpolation(_) => "Interpolation error: "@,
        StowawayError::Store(_) => "Store error: "@,
        StowawayError::Linking(_) => "Linking error: "@,
        StowawayError::Conflict(_) => "Conflict detected: "@,
        StowawayError::Yaml(_) => "YAML parsing error: "@,
        StowawayError::Glob(_) => "Glob pattern error: "@,
        StowawayError::WalkDir(_) => "Walk directory error: "@,
    }
}

/// The detail that follows the prefix.
pub open spec fn error_detail(e: StowawayError) -> Seq<char> {
    match e {
        StowawayError::Io(m) => m@,
        StowawayError::Config(m) => m@,
        StowawayError::Validation(m) => m@,
        StowawayError::Interpolation(m) => m@,
        StowawayError::Store(m) => m@,
        StowawayError::Linking(m) => m@,
        StowawayError::Conflict(m) => m@,
        StowawayError::Yaml(m) => m@,
        StowawayError::Glob(e) => glob_error_text(e),
        StowawayError::WalkDir(m) => m@,
    }
}

impl StowawayError {
    /// The human-readable message of the error.
    pub fn message(&self) -> (r: String)
        ensures
            r@ == error_prefix(*self) + error_detail(*self),
    {
        match self {
            StowawayError::Io(m) => concat("IO error: ", m.as_str()),
            StowawayError::Config(m) => concat("Configuration error: ", m.as_str()),
            StowawayError::Validation(m) => concat("Validation error: ", m.as_str()),
            StowawayError::Interpolation(m) => concat("Interpolation error: ", m.as_str()),
            StowawayError::Store(m) => concat("Store error: ", m.as_str()),
            StowawayError::Linking(m) => concat("Linking error: ", m.as_str()),
            StowawayError::Conflict(m) => concat("Conflict detected: ", m.as_str()),
            StowawayError::Yaml(m) => concat("YAML parsing error: ", m.as_str()),
            StowawayError::Glob(e) => {
                let mut r = "Glob pattern error: Pattern syntax error near position ".to_owned();
                push_decimal(&mut r, e.pos as u64);
                r.append(": ");
                r.append(e.msg.as_str());
                proof {
                    reveal_strlit("Glob pattern error: Pattern syntax error near position ");
                    reveal_strlit("Glob pattern error: ");
                    reveal_strlit("Pattern syntax error near position ");
                    reveal_strlit(": ");
                    assert(r@ =~= error_prefix(*self) + error_detail(*self));
                }
                r
            },
            StowawayError::WalkDir(m) => concat("Walk directory error: ", m.as_str()),
        }
    }
}

} // verus!
