use vstd::prelude::*;
use vstd::string::*;
use crate::text::{append_decimal, spec_decimal};

verus! {

/// Why a run fails. Every variant is fatal: nothing is retried, and the
/// queue behind a failure stays unprocessed.
#[derive(Debug)]
pub enum BundleError {
    /// A source file could not be read.
    Io { path: String, message: String },
    /// A source file is not valid TypeScript; the compiler has already
    /// reported the details on stderr.
    Parse { path: String, message: String },
    /// A local import specifier matched no file on disk. `line` and `col`
    /// are 1-based and locate the specifier literal in the importing file.
    Resolution { specifier: String, importer: String, line: usize, col: usize },
    /// A source file path with no containing directory was handed in.
    InvalidPath { path: String },
}

pub open spec fn spec_io_message(path: Seq<char>, message: Seq<char>) -> Seq<char> {
    "cannot load "@ + path + ": "@ + message
}

pub open spec fn spec_parse_message(path: Seq<char>, message: Seq<char>) -> Seq<char> {
    "cannot compile "@ + path + ": "@ + message
}

pub open spec fn spec_resolution_message(
    specifier: Seq<char>,
    importer: Seq<char>,
    line: int,
    col: int,
) -> Seq<char> {
    "cannot find module \""@ + specifier + "\" (imported from "@ + importer + ") ["@ + importer
        + ":"@ + spec_decimal(line) + ":"@ + spec_decimal(col) + "]"@
}

pub open spec fn spec_invalid_path_message() -> Seq<char> {
    "source code file has no parent"@
}

pub open spec fn spec_message(e: BundleError) -> Seq<char> {
    match e {
        BundleError::Io { path, message } => spec_io_message(path@, message@),
        BundleError::Parse { path, message } => spec_parse_message(path@, message@),
        BundleError::Resolution { specifier, importer, line, col } => spec_resolution_message(
            specifier@,
            importer@,
            line as int,
            col as int,
        ),
        BundleError::InvalidPath { path } => spec_invalid_path_message(),
    }
}

impl BundleError {
    /// The user-facing description of the failure; a resolution failure ends
    /// in the `[file:line:column]` of the offending import specifier.
    pub fn message(&self) -> (r: String)
        ensures
            r@ == spec_message(*self),
    {
        match self {
            BundleError::Io { path, message } => {
                proof {
                    reveal_strlit("cannot load ");
                    reveal_strlit(": ");
                }
                let mut r = String::from_str("cannot load ");
                r.append(path.as_str());
                r.append(": ");
                r.append(message.as_str());
                r
            },
            BundleError::Parse { path, message } => {
                proof {
                    reveal_strlit("cannot compile ");
                    reveal_strlit(": ");
                }
                let mut r = String::from_str("cannot compile ");
                r.append(path.as_str());
                r.append(": ");
                r.append(message.as_str());
                r
            },
            BundleError::Resolution { specifier, importer, line, col } => {
                proof {
                    reveal_strlit("cannot find module \"");
                    reveal_strlit("\" (imported from ");
                    reveal_strlit(") [");
                    reveal_strlit(":");
                    reveal_strlit("]");
                }
                let mut r = String::from_str("cannot find module \"");
                r.append(specifier.as_str());
                r.append("\" (imported from ");
                r.append(importer.as_str());
                r.append(") [");
                r.append(importer.as_str());
                r.append(":");
                append_decimal(&mut r, *line as u64);
                r.append(":");
                append_decimal(&mut r, *col as u64);
                r.append("]");
                r
            },
            BundleError::InvalidPath { path } => {
                proof {
                    reveal_strlit("source code file has no parent");
                }
                String::from_str("source code file has no parent")
            },
        }
    }
}

} // verus!
