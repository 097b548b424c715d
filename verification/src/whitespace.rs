//! Whitespace-discipline content rules: a newline at the end of every file,
//! and no trailing whitespace on any line or at the end of the file.
//! Configured exception globs exempt matching paths.

use vstd::prelude::*;
use crate::context::ContentContext;
use crate::context::FilePathContext;
use crate::errors::SystemError;
use crate::globs::builder_globs;
use crate::globs::glob_compiles;
use crate::globs::glob_new;
use crate::globs::globset_builds;
use crate::globs::globset_build;
use crate::globs::globset_builder_add;
use crate::globs::globset_builder_new;
use crate::globs::globset_globs;
use crate::globs::globset_is_match;
use crate::globs::globset_match;
use crate::license::lines_of;
use crate::license::split_lines;
use crate::message::Emit;
use crate::message::EmitView;
use crate::message::KindView;
use crate::message::LintKind;
use crate::message::LintLevel;
use crate::message::RunStatus;
use crate::message::RunStatusView;
use crate::message::SkipReason;
use crate::message::SkipReasonView;
use crate::message::emits_view;
use crate::strutil::dec_str;
use crate::strutil::strs_view;
use crate::strutil::u64_to_string;
use vstd::string::StrSliceExecFns;
use vstd::string::StringExecFns;

verus! {

/// Whether every pattern in the list is a valid glob.
pub open spec fn all_globs_compile(globs: Seq<Seq<char>>) -> bool {
    forall|k: int| 0 <= k < globs.len() ==> glob_compiles(#[trigger] globs[k])
}

/// Builds the exception set from the configured glob patterns.  It succeeds
/// exactly when every pattern parses and the set builds; a failure names
/// the first offending pattern (or carries an empty name when every pattern
/// parsed and only the final build failed).
pub fn build_exceptions(patterns: &Vec<String>) -> (r: Result<globset::GlobSet, SystemError>)
    ensures
        (r is Ok) == (all_globs_compile(strs_view(patterns@)) && globset_builds(
            strs_view(patterns@),
        )),
        match r {
            Ok(s) => globset_globs(s) == strs_view(patterns@),
            Err(e) => e matches SystemError::InvalidGlob { pattern } && ({
                ||| exists|k: int|
                    0 <= k < patterns@.len() && !glob_compiles(
                        #[trigger] strs_view(patterns@)[k],
                    ) && pattern@ == strs_view(patterns@)[k]
                ||| (all_globs_compile(strs_view(patterns@)) && pattern@ == Seq::<char>::empty())
            }),
        },
{
    let mut builder = globset_builder_new();
    let n = patterns.len();
    let mut i: usize = 0;
    while i < n
        invariant
            n == patterns@.len(),
            i <= n,
            builder_globs(builder) == strs_view(patterns@).subrange(0, i as int),
            forall|j: int| 0 <= j < i ==> glob_compiles(#[trigger] strs_view(patterns@)[j]),
        decreases n - i,
    {
        proof {
            assert(patterns@[i as int]@ == strs_view(patterns@)[i as int]);
        }
        match glob_new(patterns[i].as_str()) {
            Ok(g) => {
                globset_builder_add(&mut builder, g);
            },
            Err(_) => {
                return Err(SystemError::InvalidGlob { pattern: patterns[i].clone() });
            },
        }
        i += 1;
        proof {
            assert(builder_globs(builder) =~= strs_view(patterns@).subrange(0, i as int));
        }
    }
    proof {
        assert(strs_view(patterns@).subrange(0, n as int) =~= strs_view(patterns@));
    }
    match globset_build(&builder) {
        Ok(s) => Ok(s),
        Err(_) => Err(SystemError::InvalidGlob { pattern: String::new() }),
    }
}

/// The pre-run status of the whitespace rules: a path matching an exception
/// glob is skipped.
pub open spec fn whitespace_skip_status(globs: Seq<Seq<char>>, path: Seq<char>) -> RunStatusView {
    if globset_match(globs, path) {
        RunStatusView::Skipped(SkipReasonView::UnsupportedFile(path))
    } else {
        RunStatusView::Executed
    }
}

/// Consults the exception set for one path.
fn skip_whitespace_checks(exceptions: &globset::GlobSet, file: &FilePathContext<'_>) -> (r:
    RunStatus)
    ensures
        r@ == whitespace_skip_status(globset_globs(*exceptions), file.file_path@),
{
    if globset_is_match(exceptions, file.file_path.as_str()) {
        return RunStatus::Skipped(SkipReason::UnsupportedFile(file.file_path.clone()));
    }
    RunStatus::Executed
}

/// Requires every non-empty file to end with a newline.
#[derive(Debug)]
pub struct EofNewline {
    pub exceptions: globset::GlobSet,
}

/// The emits of `EofNewline` for one file.
pub open spec fn eof_newline_emits(path: Seq<char>, content: Seq<char>) -> Seq<EmitView> {
    if content.len() > 0 && content.last() != '\n' {
        seq![
            EmitView {
                kind: KindView::Content(path),
                level: LintLevel::Error,
                message: "missing newline at EOF"@,
            },
        ]
    } else {
        Seq::<EmitView>::empty()
    }
}

impl EofNewline {
    /// Builds the rule with its exception set.
    pub fn new(exceptions: globset::GlobSet) -> (r: Self)
        ensures
            globset_globs(r.exceptions) == globset_globs(exceptions),
    {
        EofNewline { exceptions }
    }

    /// The rule's name.
    pub fn name(&self) -> (r: &'static str)
        ensures
            r@ == "eof-newline"@,
    {
        "eof-newline"
    }

    /// Skips paths matching an exception glob.
    pub fn pre_run(&self, file_ctx: &FilePathContext<'_>) -> (r: RunStatus)
        ensures
            r@ == whitespace_skip_status(globset_globs(self.exceptions), file_ctx.file_path@),
    {
        skip_whitespace_checks(&self.exceptions, file_ctx)
    }

    /// Reports a missing newline at the end of the file.
    pub fn run(&self, ctx: &ContentContext<'_>) -> (r: Vec<Emit>)
        ensures
            emits_view(r@) == eof_newline_emits(ctx.file.file_path@, ctx.content@),
    {
        let content = ctx.content().as_str();
        let n = content.unicode_len();
        let mut r: Vec<Emit> = Vec::new();
        if n > 0 && content.get_char(n - 1) != '\n' {
            r.push(
                Emit {
                    kind: LintKind::Content(ctx.file_ctx().file_path().clone()),
                    level: LintLevel::Error,
                    message: String::from_str("missing newline at EOF"),
                },
            );
        }
        proof {
            assert(emits_view(r@) =~= eof_newline_emits(ctx.file.file_path@, ctx.content@));
        }
        r
    }
}

/// Forbids trailing whitespace on any line and blank lines at the end of
/// the file.
#[derive(Debug)]
pub struct TrailingWhitespace {
    pub exceptions: globset::GlobSet,
}

/// The characters with the Unicode `White_Space` property: exactly those
/// the standard library's whitespace trimming removes.
pub open spec fn is_trailing_ws(c: char) -> bool {
    ||| c == '\u{0009}'
    ||| c == '\u{000A}'
    ||| c == '\u{000B}'
    ||| c == '\u{000C}'
    ||| c == '\u{000D}'
    ||| c == '\u{0020}'
    ||| c == '\u{0085}'
    ||| c == '\u{00A0}'
    ||| c == '\u{1680}'
    ||| c == '\u{2000}'
    ||| c == '\u{2001}'
    ||| c == '\u{2002}'
    ||| c == '\u{2003}'
    ||| c == '\u{2004}'
    ||| c == '\u{2005}'
    ||| c == '\u{2006}'
    ||| c == '\u{2007}'
    ||| c == '\u{2008}'
    ||| c == '\u{2009}'
    ||| c == '\u{200A}'
    ||| c == '\u{2028}'
    ||| c == '\u{2029}'
    ||| c == '\u{202F}'
    ||| c == '\u{205F}'
    ||| c == '\u{3000}'
}

/// Runtime test for the `White_Space` set.
fn is_trailing_ws_char(c: char) -> (r: bool)
    ensures
        r == is_trailing_ws(c),
{
    match c {
        '\u{0009}' | '\u{000A}' | '\u{000B}' | '\u{000C}' | '\u{000D}' | '\u{0020}'
            | '\u{0085}' | '\u{00A0}' | '\u{1680}' | '\u{2000}' | '\u{2001}' | '\u{2002}'
            | '\u{2003}' | '\u{2004}' | '\u{2005}' | '\u{2006}' | '\u{2007}' | '\u{2008}'
            | '\u{2009}' | '\u{200A}' | '\u{2028}' | '\u{2029}' | '\u{202F}' | '\u{205F}'
            | '\u{3000}' => true,
        _ => false,
    }
}

/// Whether a line carries trailing whitespace.
pub open spec fn line_flagged(l: Seq<char>) -> bool {
    l.len() > 0 && is_trailing_ws(l.last())
}

/// The emit for line `ln` (1-based) carrying trailing whitespace.
pub open spec fn trailing_line_emit(path: Seq<char>, ln: int) -> EmitView {
    EmitView {
        kind: KindView::Content(path),
        level: LintLevel::Error,
        message: "trailing whitespace at line "@ + dec_str(ln as nat),
    }
}

/// The emits for the first `n` lines of the file.
pub open spec fn trailing_upto(path: Seq<char>, lines: Seq<Seq<char>>, n: int) -> Seq<EmitView>
    decreases n,
{
    if n <= 0 {
        Seq::<EmitView>::empty()
    } else {
        let prev = trailing_upto(path, lines, n - 1);
        if line_flagged(lines[n - 1]) {
            prev.push(trailing_line_emit(path, n))
        } else {
            prev
        }
    }
}

/// The emits of `TrailingWhitespace` for one file: one per offending line,
/// and one more when the file ends in blank lines.
pub open spec fn trailing_emits(path: Seq<char>, content: Seq<char>) -> Seq<EmitView> {
    let lines = lines_of(content);
    let eof_part: Seq<EmitView> = if lines.len() > 0 && lines.last().len() == 0 {
        seq![
            EmitView {
                kind: KindView::Content(path),
                level: LintLevel::Error,
                message: "trailing whitespace at EOF"@,
            },
        ]
    } else {
        Seq::<EmitView>::empty()
    };
    trailing_upto(path, lines, lines.len() as int) + eof_part
}

impl TrailingWhitespace {
    /// Builds the rule with its exception set.
    pub fn new(exceptions: globset::GlobSet) -> (r: Self)
        ensures
            globset_globs(r.exceptions) == globset_globs(exceptions),
    {
        TrailingWhitespace { exceptions }
    }

    /// The rule's name.
    pub fn name(&self) -> (r: &'static str)
        ensures
            r@ == "trailing-whitespace"@,
    {
        "trailing-whitespace"
    }

    /// Skips paths matching an exception glob.
    pub fn pre_run(&self, file_ctx: &FilePathContext<'_>) -> (r: RunStatus)
        ensures
            r@ == whitespace_skip_status(globset_globs(self.exceptions), file_ctx.file_path@),
    {
        skip_whitespace_checks(&self.exceptions, file_ctx)
    }

    /// Reports every line with trailing whitespace, and blank lines at the
    /// end of the file.
    pub fn run(&self, ctx: &ContentContext<'_>) -> (r: Vec<Emit>)
        ensures
            emits_view(r@) == trailing_emits(ctx.file.file_path@, ctx.content@),
    {
        let ghost path = ctx.file.file_path@;
        let lines = split_lines(ctx.content().as_str());
        let ghost linesv = strs_view(lines@);
        let n = lines.len();
        let mut r: Vec<Emit> = Vec::new();
        let mut i: usize = 0;
        while i < n
            invariant
                n == lines@.len(),
                i <= n,
                linesv == strs_view(lines@),
                path == ctx.file.file_path@,
                emits_view(r@) == trailing_upto(path, linesv, i as int),
            decreases n - i,
        {
            let line = lines[i].as_str();
            let ln = line.unicode_len();
            let flagged: bool;
            if ln == 0 {
                flagged = false;
            } else {
                let c = line.get_char(ln - 1);
                flagged = is_trailing_ws_char(c);
            }
            proof {
                assert(line@ == linesv[i as int]);
                assert(flagged == line_flagged(linesv[i as int]));
            }
            if flagged {
                let mut msg = String::from_str("trailing whitespace at line ");
                let lnstr = u64_to_string((i as u64) + 1);
                msg.append(lnstr.as_str());
                let em = Emit {
                    kind: LintKind::Content(ctx.file_ctx().file_path().clone()),
                    level: LintLevel::Error,
                    message: msg,
                };
                let ghost emg = em;
                let ghost oldr = r@;
                r.push(em);
                proof {
                    crate::message::lemma_emits_view_push(oldr, emg);
                    assert(emg@ =~~= trailing_line_emit(path, i + 1));
                }
            }
            i += 1;
            proof {
                assert(emits_view(r@) =~~= trailing_upto(path, linesv, i as int));
            }
        }
        if n > 0 && lines[n - 1].as_str().unicode_len() == 0 {
            proof {
                assert(linesv.last() == lines@[n - 1]@);
            }
            r.push(
                Emit {
                    kind: LintKind::Content(ctx.file_ctx().file_path().clone()),
                    level: LintLevel::Error,
                    message: String::from_str("trailing whitespace at EOF"),
                },
            );
        } else {
            proof {
                if n > 0 {
                    assert(linesv.last() == lines@[n - 1]@);
                }
            }
        }
        proof {
            assert(emits_view(r@) =~~= trailing_emits(ctx.file.file_path@, ctx.content@));
        }
        r
    }
}

} // verus!
