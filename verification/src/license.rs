//! The license-header content rule: every supported source file must open
//! with the configured license header lines.

use vstd::prelude::*;
use crate::context::ContentContext;
use crate::context::FilePathContext;
use crate::message::Emit;
use crate::message::EmitView;
use crate::message::KindView;
use crate::message::LintKind;
use crate::message::LintLevel;
use crate::message::RunStatus;
use crate::message::SkipReason;
use crate::message::emits_view;
use crate::strutil::last_index_of;
use crate::strutil::lemma_last_index_of_bounds;
use crate::strutil::lemma_split_seq_len;
use crate::strutil::rfind_char;
use crate::strutil::split_char;
use crate::strutil::split_seq;
use crate::strutil::starts_with;
use crate::strutil::str_eq;
use crate::strutil::str_starts_with;
use crate::strutil::strings_contain;
use crate::strutil::strs_view;
use crate::strutil::trim_prefix_all;
use crate::strutil::trim_prefix_repeated;
use vstd::string::StrSliceExecFns;
use vstd::string::StringExecFns;

verus! {

/// The last piece of `split_seq` is the suffix after the last separator.
pub proof fn lemma_split_seq_last(s: Seq<char>, sep: char)
    ensures
        split_seq(s, sep).last() == s.subrange(last_index_of(s, sep) + 1, s.len() as int),
    decreases s.len(),
{
    lemma_split_seq_len(s, sep);
    lemma_last_index_of_bounds(s, sep);
    if s.len() == 0 {
        assert(s.subrange(0, 0) =~= Seq::<char>::empty());
    } else if s.last() == sep {
        assert(s.subrange(s.len() as int, s.len() as int) =~= Seq::<char>::empty());
    } else {
        lemma_split_seq_last(s.drop_last(), sep);
        lemma_split_seq_len(s.drop_last(), sep);
        let idx = last_index_of(s, sep);
        assert(last_index_of(s.drop_last(), sep) == idx);
        assert(split_seq(s, sep).last() == split_seq(s.drop_last(), sep).last().push(s.last()));
        assert(s.drop_last().subrange(idx + 1, s.len() - 1).push(s.last()) =~= s.subrange(
            idx + 1,
            s.len() as int,
        ));
    }
}

/// The file name of a path: everything after the last `/`.
pub open spec fn file_name_of(path: Seq<char>) -> Seq<char> {
    path.subrange(last_index_of(path, '/') + 1, path.len() as int)
}

/// The extension of a path: the part of the file name after its last dot,
/// unless the name's only dot leads it.
pub open spec fn extension_of(path: Seq<char>) -> Option<Seq<char>> {
    let name = file_name_of(path);
    let i = last_index_of(name, '.');
    if i >= 1 {
        Some(name.subrange(i + 1, name.len() as int))
    } else {
        None
    }
}

/// Extracts the extension of `path`.
pub fn extension_str(path: &str) -> (r: Option<String>)
    ensures
        match r {
            Some(e) => extension_of(path@) == Some(e@),
            None => extension_of(path@) is None,
        },
{
    let n = path.unicode_len();
    proof {
        lemma_last_index_of_bounds(path@, '/');
    }
    let start: usize = match rfind_char(path, '/') {
        Some(i) => i + 1,
        None => 0,
    };
    let name = path.substring_char(start, n);
    proof {
        assert(name@ == file_name_of(path@));
    }
    let nn = name.unicode_len();
    match rfind_char(name, '.') {
        Some(i) => {
            if i >= 1 {
                proof {
                    lemma_last_index_of_bounds(name@, '.');
                }
                Some(name.substring_char(i + 1, nn).to_owned())
            } else {
                None
            }
        },
        None => None,
    }
}

/// The file types the license-header rule understands.
#[derive(Clone, Copy, Debug, PartialEq, Eq, Structural)]
pub enum FileType {
    Rust,
    Shell,
    Proto,
    JavaScript,
    TypeScript,
    Move,
    Python,
}

/// The file type a given extension denotes.
pub open spec fn file_type_of(ext: Option<Seq<char>>) -> Option<FileType> {
    match ext {
        Some(e) => if e == "rs"@ {
            Some(FileType::Rust)
        } else if e == "sh"@ {
            Some(FileType::Shell)
        } else if e == "proto"@ {
            Some(FileType::Proto)
        } else if e == "js"@ || e == "jsx"@ || e == "cjs"@ || e == "mjs"@ {
            Some(FileType::JavaScript)
        } else if e == "ts"@ || e == "tsx"@ || e == "mts"@ || e == "cts"@ {
            Some(FileType::TypeScript)
        } else if e == "move"@ {
            Some(FileType::Move)
        } else if e == "py"@ {
            Some(FileType::Python)
        } else {
            None
        },
        None => None,
    }
}

impl FileType {
    /// Classifies a file by its extension.
    pub fn new(ctx: &FilePathContext<'_>) -> (r: Option<FileType>)
        ensures
            r == file_type_of(extension_of(ctx.file_path@)),
    {
        match ctx.extension() {
            Some(e) => {
                let s = e.as_str();
                if str_eq(s, "rs") {
                    Some(FileType::Rust)
                } else if str_eq(s, "sh") {
                    Some(FileType::Shell)
                } else if str_eq(s, "proto") {
                    Some(FileType::Proto)
                } else if str_eq(s, "js") || str_eq(s, "jsx") || str_eq(s, "cjs") || str_eq(
                    s,
                    "mjs",
                ) {
                    Some(FileType::JavaScript)
                } else if str_eq(s, "ts") || str_eq(s, "tsx") || str_eq(s, "mts") || str_eq(
                    s,
                    "cts",
                ) {
                    Some(FileType::TypeScript)
                } else if str_eq(s, "move") {
                    Some(FileType::Move)
                } else if str_eq(s, "py") {
                    Some(FileType::Python)
                } else {
                    None
                }
            },
            None => None,
        }
    }
}

/// A line with a trailing carriage return stripped.
pub open spec fn strip_cr(l: Seq<char>) -> Seq<char> {
    if l.len() > 0 && l.last() == '\r' {
        l.drop_last()
    } else {
        l
    }
}

/// The lines of `s`: split at `\n`, with no line for a trailing newline and
/// with a trailing carriage return removed from each line.
pub open spec fn lines_of(s: Seq<char>) -> Seq<Seq<char>> {
    let parts = split_seq(s, '\n');
    let trimmed = if parts.last().len() == 0 {
        parts.drop_last()
    } else {
        parts
    };
    trimmed.map_values(|l: Seq<char>| strip_cr(l))
}

/// Splits `s` into its lines.
pub fn split_lines(s: &str) -> (r: Vec<String>)
    ensures
        strs_view(r@) == lines_of(s@),
{
    let parts = split_char(s, '\n');
    let ghost partsv = strs_view(parts@);
    proof {
        lemma_split_seq_len(s@, '\n');
    }
    let n = parts.len();
    let keep: usize = if parts[n - 1].as_str().unicode_len() == 0 {
        n - 1
    } else {
        n
    };
    let ghost trimmed = if partsv.last().len() == 0 {
        partsv.drop_last()
    } else {
        partsv
    };
    let mut r: Vec<String> = Vec::new();
    let mut i: usize = 0;
    while i < keep
        invariant
            keep <= n,
            n == parts@.len(),
            i <= keep,
            trimmed.len() == keep,
            forall|j: int| 0 <= j < keep ==> trimmed[j] == strs_view(parts@)[j],
            r@.len() == i,
            forall|j: int| 0 <= j < i ==> strs_view(r@)[j] == strip_cr(trimmed[j]),
        decreases keep - i,
    {
        let line = parts[i].as_str();
        let ln = line.unicode_len();
        let stripped: String;
        proof {
            assert(line@ == strs_view(parts@)[i as int]);
        }
        if ln > 0 && line.get_char(ln - 1) == '\r' {
            proof {
                assert(line@.subrange(0, ln - 1) =~= line@.drop_last());
            }
            stripped = line.substring_char(0, ln - 1).to_owned();
        } else {
            stripped = line.to_owned();
        }
        proof {
            assert(stripped@ == strip_cr(trimmed[i as int]));
        }
        let ghost oldr = r@;
        r.push(stripped);
        i += 1;
        proof {
            assert(r@.len() == i);
            assert(r@[i - 1] == stripped);
            assert(strs_view(r@)[i - 1] == r@[i - 1]@);
            assert forall|j: int| 0 <= j < i - 1 implies strs_view(r@)[j] == strip_cr(
                trimmed[j],
            ) by {
                assert(strs_view(oldr)[j] == strip_cr(trimmed[j]));
                assert(r@[j] == oldr[j]);
                assert(strs_view(r@)[j] == r@[j]@);
            }
        }
    }
    proof {
        assert(strs_view(r@) =~= lines_of(s@));
    }
    r
}

/// Drops leading empty lines.
pub open spec fn skip_empty_lines(lines: Seq<Seq<char>>) -> Seq<Seq<char>>
    decreases lines.len(),
{
    if lines.len() > 0 && lines[0].len() == 0 {
        skip_empty_lines(lines.drop_first())
    } else {
        lines
    }
}

/// Drops leading shebang lines.
pub open spec fn skip_shebang_lines(lines: Seq<Seq<char>>) -> Seq<Seq<char>>
    decreases lines.len(),
{
    if lines.len() > 0 && starts_with(lines[0], "#!"@) {
        skip_shebang_lines(lines.drop_first())
    } else {
        lines
    }
}

/// The first four lines (or all of them, if fewer).
pub open spec fn take_four(lines: Seq<Seq<char>>) -> Seq<Seq<char>> {
    if lines.len() <= 4 {
        lines
    } else {
        lines.subrange(0, 4)
    }
}

/// Each line with every repetition of the comment prefix removed.
pub open spec fn trim_lines(lines: Seq<Seq<char>>, prefix: Seq<char>) -> Seq<Seq<char>> {
    lines.map_values(|l: Seq<char>| trim_prefix_all(l, prefix))
}

/// The candidate header lines of a file: the first four lines after leading
/// blanks (and, for script files, after a shebang), with the comment prefix
/// removed.
pub open spec fn header_candidates(ft: FileType, content: Seq<char>) -> Seq<Seq<char>> {
    match ft {
        FileType::Shell | FileType::Python => trim_lines(
            take_four(skip_empty_lines(skip_shebang_lines(lines_of(content)))),
            "# "@,
        ),
        _ => trim_lines(take_four(skip_empty_lines(lines_of(content))), "// "@),
    }
}

/// Whether every member of `a` occurs in `b`.
pub open spec fn seq_subset(a: Seq<Seq<char>>, b: Seq<Seq<char>>) -> bool {
    forall|j: int| 0 <= j < a.len() ==> b.contains(#[trigger] a[j])
}

/// Whether the file is missing the license header.
pub open spec fn missing_header(ft: FileType, header: Seq<char>, content: Seq<char>) -> bool {
    !seq_subset(lines_of(header), header_candidates(ft, content))
}

/// The emits of the license-header rule for one file.
pub open spec fn license_emits(
    ft: FileType,
    header: Seq<char>,
    path: Seq<char>,
    content: Seq<char>,
) -> Seq<EmitView> {
    if missing_header(ft, header, content) {
        seq![
            EmitView {
                kind: KindView::Content(path),
                level: LintLevel::Error,
                message: "missing license header"@,
            },
        ]
    } else {
        Seq::<EmitView>::empty()
    }
}

/// Requires every supported source file to begin with the configured
/// license header.
#[derive(Clone, Debug, PartialEq, Eq)]
pub struct LicenseHeader(pub String);

impl LicenseHeader {
    /// Builds the rule from the expected header text.
    pub fn new(header: &str) -> (r: Self)
        ensures
            r.0@ == header@,
    {
        LicenseHeader(header.to_owned())
    }

    /// The rule's name.
    pub fn name(&self) -> (r: &'static str)
        ensures
            r@ == "license-header"@,
    {
        "license-header"
    }

    /// Skips files whose extension names no supported file type.
    pub fn pre_run(&self, file_ctx: &FilePathContext<'_>) -> (r: RunStatus)
        ensures
            r@ == license_pre_run_status(file_ctx.file_path@),
    {
        match FileType::new(file_ctx) {
            Some(_) => RunStatus::Executed,
            None => RunStatus::Skipped(SkipReason::UnsupportedExtension(file_ctx.extension())),
        }
    }

    /// Reports a missing license header in one decodable file.
    pub fn run(&self, ctx: &ContentContext<'_>) -> (r: Vec<Emit>)
        requires
            file_type_of(extension_of(ctx.file.file_path@)) is Some,
        ensures
            emits_view(r@) == license_emits(
                file_type_of(extension_of(ctx.file.file_path@))->Some_0,
                self.0@,
                ctx.file.file_path@,
                ctx.content@,
            ),
    {
        let ft = match FileType::new(ctx.file_ctx()) {
            Some(ft) => ft,
            None => {
                proof {
                    assert(false);
                }
                FileType::Rust
            },
        };
        let lines = split_lines(ctx.content().as_str());
        let ghost linesv = strs_view(lines@);

        // Skip a shebang for script files, then leading blank lines.
        let mut start: usize = 0;
        let shell_like = matches!(ft, FileType::Shell | FileType::Python);
        let ghost after_shebang = if shell_like {
            skip_shebang_lines(linesv)
        } else {
            linesv
        };
        if shell_like {
            proof {
                assert(linesv.subrange(0, linesv.len() as int) =~= linesv);
            }
            while start < lines.len() && str_starts_with(lines[start].as_str(), "#!")
                invariant
                    linesv == strs_view(lines@),
                    start <= lines@.len(),
                    skip_shebang_lines(linesv) == skip_shebang_lines(
                        linesv.subrange(start as int, linesv.len() as int),
                    ),
                decreases linesv.len() - start,
            {
                proof {
                    let rest = linesv.subrange(start as int, linesv.len() as int);
                    assert(rest[0] == linesv[start as int]);
                    assert(rest.drop_first() =~= linesv.subrange(
                        start + 1,
                        linesv.len() as int,
                    ));
                }
                start += 1;
            }
            proof {
                let rest = linesv.subrange(start as int, linesv.len() as int);
                if start < linesv.len() {
                    assert(rest[0] == linesv[start as int]);
                }
                assert(after_shebang =~= linesv.subrange(start as int, linesv.len() as int));
            }
        }
        let ghost shebang_start = start as int;
        proof {
            assert(after_shebang =~= linesv.subrange(shebang_start, linesv.len() as int));
        }
        let ghost skipped = skip_empty_lines(after_shebang);
        while start < lines.len() && lines[start].as_str().unicode_len() == 0
            invariant
                linesv == strs_view(lines@),
                shebang_start <= start <= lines@.len(),
                after_shebang == linesv.subrange(shebang_start, linesv.len() as int),
                skipped == skip_empty_lines(linesv.subrange(start as int, linesv.len() as int)),
            decreases linesv.len() - start,
        {
            proof {
                let rest = linesv.subrange(start as int, linesv.len() as int);
                assert(rest[0] == linesv[start as int]);
                assert(rest.drop_first() =~= linesv.subrange(start + 1, linesv.len() as int));
            }
            start += 1;
        }
        proof {
            let rest = linesv.subrange(start as int, linesv.len() as int);
            if start < linesv.len() {
                assert(rest[0] == linesv[start as int]);
            }
            assert(skipped =~= linesv.subrange(start as int, linesv.len() as int));
        }

        // Collect up to four trimmed candidate lines.
        let prefix: &str = if shell_like {
            "# "
        } else {
            "// "
        };
        let ghost cands = header_candidates(ft, ctx.content@);
        proof {
            assert(cands =~= trim_lines(take_four(skipped), prefix@));
        }
        let mut candidates: Vec<String> = Vec::new();
        let mut k: usize = 0;
        let total = lines.len();
        while k < 4 && start + k < total
            invariant
                linesv == strs_view(lines@),
                total == lines@.len(),
                start <= total,
                k <= 4,
                start + k <= total,
                cands == trim_lines(take_four(skipped), prefix@),
                skipped == linesv.subrange(start as int, linesv.len() as int),
                k <= cands.len(),
                strs_view(candidates@) == cands.subrange(0, k as int),
            decreases 4 - k,
        {
            let trimmed = trim_prefix_repeated(lines[start + k].as_str(), prefix);
            proof {
                assert(take_four(skipped)[k as int] == linesv[start + k]);
                assert(cands[k as int] == trim_prefix_all(linesv[start + k], prefix@));
            }
            candidates.push(trimmed.to_owned());
            k += 1;
            proof {
                assert(strs_view(candidates@) =~= cands.subrange(0, k as int));
            }
        }
        proof {
            assert(cands.len() == take_four(skipped).len());
            assert(k == cands.len());
            assert(strs_view(candidates@) =~= cands);
        }

        // Check that every header line occurs among the candidates.
        let header_lines = split_lines(self.0.as_str());
        let ghost hl = lines_of(self.0@);
        let nh = header_lines.len();
        let mut all_found = true;
        let mut j: usize = 0;
        while j < nh
            invariant
                nh == header_lines@.len(),
                hl == strs_view(header_lines@),
                cands == strs_view(candidates@),
                j <= nh,
                all_found == (forall|t: int| 0 <= t < j ==> cands.contains(#[trigger] hl[t])),
            decreases nh - j,
        {
            proof {
                assert(hl[j as int] == header_lines@[j as int]@);
            }
            if !strings_contain(&candidates, header_lines[j].as_str()) {
                all_found = false;
            }
            j += 1;
        }
        let mut r: Vec<Emit> = Vec::new();
        if !all_found {
            let path = ctx.file_ctx().file_path().clone();
            r.push(
                Emit {
                    kind: LintKind::Content(path),
                    level: LintLevel::Error,
                    message: String::from_str("missing license header"),
                },
            );
        }
        proof {
            assert(emits_view(r@) =~= license_emits(
                ft,
                self.0@,
                ctx.file.file_path@,
                ctx.content@,
            ));
        }
        r
    }
}

/// The pre-run status of the license rule for a path: executed for
/// supported file types, otherwise skipped with the extension.
pub open spec fn license_pre_run_status(
    path: Seq<char>,
) -> crate::message::RunStatusView {
    if file_type_of(extension_of(path)) is Some {
        crate::message::RunStatusView::Executed
    } else {
        crate::message::RunStatusView::Skipped(
            crate::message::SkipReasonView::UnsupportedExtension(extension_of(path)),
        )
    }
}

} // verus!
