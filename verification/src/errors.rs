//! System-level error values: fatal conditions that abort a run, as opposed
//! to lint messages, which are reported findings.

use vstd::prelude::*;
use vstd::string::StringExecFns;

verus! {

/// Failure to decode a hex string.
#[derive(Clone, Copy, Debug, PartialEq, Eq, Structural)]
pub enum HexDecodeError {
    OddLength,
    InvalidStringLength,
    InvalidHexCharacter { c: char, index: usize },
}

/// A fatal error: the run cannot proceed and no results are produced.
#[derive(Clone, Debug, PartialEq, Eq)]
pub enum SystemError {
    /// The current directory does not lie under the project root.
    CwdNotInProjectRoot { current_dir: String, project_root: String },
    /// The configured allowed-path pattern is not a valid regular expression.
    InvalidRegex { pattern: String },
    /// A configured exception pattern is not a valid glob.
    InvalidGlob { pattern: String },
    /// A hash string could not be decoded.
    FromHex(HexDecodeError),
    /// The supplied dependency graph holds an edge with an endpoint out of
    /// range.
    InvalidGraph,
}

impl SystemError {
    /// A short, human-readable description of the error.
    pub fn describe(&self) -> (r: String)
        ensures
            r@ == self.spec_describe(),
    {
        match self {
            SystemError::CwdNotInProjectRoot { current_dir, project_root } => {
                let mut s = String::new();
                s.append("current directory ");
                s.append(current_dir.as_str());
                s.append(" is not within the project root ");
                s.append(project_root.as_str());
                proof {
                    assert(s@ =~= self.spec_describe());
                }
                s
            },
            SystemError::InvalidRegex { pattern } => {
                let mut s = String::new();
                s.append("error while parsing allowed-paths regex ");
                s.append(pattern.as_str());
                proof {
                    assert(s@ =~= self.spec_describe());
                }
                s
            },
            SystemError::InvalidGlob { pattern } => {
                let mut s = String::new();
                s.append("error while processing whitespace exception glob ");
                s.append(pattern.as_str());
                proof {
                    assert(s@ =~= self.spec_describe());
                }
                s
            },
            SystemError::FromHex(_) => {
                let mut s = String::new();
                s.append("error while parsing a hex-encoded hash");
                proof {
                    assert(s@ =~= self.spec_describe());
                }
                s
            },
            SystemError::InvalidGraph => {
                let mut s = String::new();
                s.append("the package graph holds an edge with an endpoint out of range");
                proof {
                    assert(s@ =~= self.spec_describe());
                }
                s
            },
        }
    }

    /// The description `describe` returns.
    pub open spec fn spec_describe(&self) -> Seq<char> {
        match self {
            SystemError::CwdNotInProjectRoot { current_dir, project_root } => "current directory "@
                + current_dir@ + " is not within the project root "@ + project_root@,
            SystemError::InvalidRegex { pattern } => "error while parsing allowed-paths regex "@
                + pattern@,
            SystemError::InvalidGlob { pattern } =>
                "error while processing whitespace exception glob "@ + pattern@,
            SystemError::FromHex(_) => "error while parsing a hex-encoded hash"@,
            SystemError::InvalidGraph =>
                "the package graph holds an edge with an endpoint out of range"@,
        }
    }
}

} // verus!
