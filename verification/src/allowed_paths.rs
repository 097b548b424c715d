//! The allowed-paths file-path rule: every tracked path must match a
//! configured, fully anchored regular expression.

use vstd::prelude::*;
use crate::context::FilePathContext;
use crate::errors::SystemError;
use crate::message::Emit;
use crate::message::EmitView;
use crate::message::KindView;
use crate::message::LintKind;
use crate::message::LintLevel;
use crate::message::emits_view;
use vstd::string::StringExecFns;

verus! {

#[verifier::external_type_specification]
#[verifier::external_body]
pub struct ExRegex(regex::Regex);

#[verifier::external_type_specification]
#[verifier::external_body]
pub struct ExRegexError(regex::Error);

/// The pattern text a regular expression was compiled from.
pub uninterp spec fn regex_pattern(re: regex::Regex) -> Seq<char>;

/// Whether the given pattern text is a valid regular expression.
pub uninterp spec fn regex_compiles(pattern: Seq<char>) -> bool;

/// Whether the regular expression with the given pattern matches somewhere
/// in the given text.
pub uninterp spec fn regex_match(pattern: Seq<char>, text: Seq<char>) -> bool;

/// Relies on regex::Regex::new: compiles the pattern; whether compilation
/// succeeds, and the compiled value itself, are functions of the pattern
/// text alone.
#[verifier::external_body]
fn regex_new(pattern: &str) -> (r: Result<regex::Regex, regex::Error>)
    ensures
        (r is Ok) == regex_compiles(pattern@),
        r matches Ok(re) ==> regex_pattern(re) == pattern@,
{
    regex::Regex::new(pattern)
}

/// Relies on regex::Regex::is_match: whether the regex matches anywhere in
/// the text; a function of the pattern and the text alone.
#[verifier::external_body]
fn regex_is_match(re: &regex::Regex, text: &str) -> (r: bool)
    ensures
        r == regex_match(regex_pattern(*re), text@),
{
    re.is_match(text)
}

/// The default allowed characters in paths.  The regular expression is
/// fully anchored.
pub const DEFAULT_ALLOWED_PATHS_REGEX: &'static str = "^([a-zA-Z0-9._\\-/@:]|-)+$";

/// Allows only certain characters in tracked file paths.
#[derive(Debug)]
pub struct AllowedPaths {
    pub pattern: String,
    pub regex: regex::Regex,
}

/// The emits of `AllowedPaths` for one path.
pub open spec fn allowed_paths_emits(pattern: Seq<char>, path: Seq<char>) -> Seq<EmitView> {
    if !regex_match(pattern, path) {
        seq![
            EmitView {
                kind: KindView::File(path),
                level: LintLevel::Error,
                message: "path doesn't match allowed regex: "@ + pattern,
            },
        ]
    } else {
        Seq::<EmitView>::empty()
    }
}

impl AllowedPaths {
    /// Validity: the compiled regex belongs to the stored pattern.
    pub open spec fn wf(&self) -> bool {
        regex_pattern(self.regex) == self.pattern@
    }

    /// Compiles the configured pattern, rejecting an invalid one.
    pub fn new(allowed_paths: &str) -> (r: Result<AllowedPaths, SystemError>)
        ensures
            (r is Ok) == regex_compiles(allowed_paths@),
            match r {
                Ok(a) => a.wf() && a.pattern@ == allowed_paths@,
                Err(e) => e matches SystemError::InvalidRegex { pattern } && pattern@
                    == allowed_paths@,
            },
    {
        match regex_new(allowed_paths) {
            Ok(re) => Ok(AllowedPaths { pattern: allowed_paths.to_owned(), regex: re }),
            Err(_) => Err(SystemError::InvalidRegex { pattern: allowed_paths.to_owned() }),
        }
    }

    /// The rule's name.
    pub fn name(&self) -> (r: &'static str)
        ensures
            r@ == "allowed-paths"@,
    {
        "allowed-paths"
    }

    /// Reports a path the configured expression does not match.
    pub fn run(&self, ctx: &FilePathContext<'_>) -> (r: Vec<Emit>)
        requires
            self.wf(),
        ensures
            emits_view(r@) == allowed_paths_emits(self.pattern@, ctx.file_path@),
    {
        let mut r: Vec<Emit> = Vec::new();
        if !regex_is_match(&self.regex, ctx.file_path().as_str()) {
            let mut msg = String::from_str("path doesn't match allowed regex: ");
            msg.append(self.pattern.as_str());
            r.push(
                Emit {
                    kind: LintKind::File(ctx.file_path().clone()),
                    level: LintLevel::Error,
                    message: msg,
                },
            );
        }
        proof {
            assert(emits_view(r@) =~= allowed_paths_emits(self.pattern@, ctx.file_path@));
        }
        r
    }
}

} // verus!
