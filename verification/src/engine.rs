//! The lint engine: dispatches every configured rule over every target of
//! its granularity, tags and collects the emitted messages and the skip
//! records, and honours fail-fast mode.
//!
//! A run walks four stages in order — project rules, package rules over the
//! workspace members in node order, file-path rules over the tracked files,
//! and content rules over the tracked files — and its whole result is a
//! pure function of the snapshot and the configuration.  With fail-fast
//! set, the run stops at the first rule invocation that emitted an
//! error-level message; the check sits at invocation boundaries only.

use vstd::prelude::*;
use crate::allowed_paths::AllowedPaths;
use crate::allowed_paths::allowed_paths_emits;
use crate::context::ContentContext;
use crate::context::FilePathContext;
use crate::context::NexLintContext;
use crate::context::PackageContext;
use crate::context::ProjectContext;
use crate::graph_rules::BannedDeps;
use crate::graph_rules::CrateNamesPaths;
use crate::graph_rules::CratesInCratesDirectory;
use crate::graph_rules::CratesOnlyInCratesDirectory;
use crate::graph_rules::DirectDepDups;
use crate::graph_rules::DirectDuplicateGitDependencies;
use crate::graph_rules::EnforcedAttributes;
use crate::graph_rules::IrrelevantBuildDeps;
use crate::graph_rules::OnlyPublishToCratesIo;
use crate::graph_rules::PublishedPackagesDontDependOnUnpublishedPackages;
use crate::graph_rules::UnpublishedPackagesOnlyUsePathDependencies;
use crate::graph_rules::banned_run_upto;
use crate::graph_rules::crate_names_emits;
use crate::graph_rules::crates_in_emits;
use crate::graph_rules::crates_only_emits;
use crate::graph_rules::dd_run_upto;
use crate::graph_rules::enforced_emits;
use crate::graph_rules::gg_run_upto;
use crate::graph_rules::irrelevant_build_emits;
use crate::graph_rules::only_publish_emits;
use crate::graph_rules::pub_unpub_emits;
use crate::graph_rules::unpub_version_emits;
use crate::license::LicenseHeader;
use crate::license::extension_of;
use crate::license::file_type_of;
use crate::license::license_emits;
use crate::license::license_pre_run_status;
use crate::message::Emit;
use crate::message::EmitView;
use crate::message::LintMessage;
use crate::message::LintResults;
use crate::message::LintSource;
use crate::message::ResultsView;
use crate::message::RunStatus;
use crate::message::RunStatusView;
use crate::message::SkipEntry;
use crate::message::SkipView;
use crate::message::SourcedMessageView;
use crate::message::emits_view;
use crate::message::has_error;
use crate::message::msgs_view;
use crate::message::push_tagged;
use crate::message::skips_view;
use crate::message::tag_emits;
use crate::strutil::strs_view;
use crate::whitespace::EofNewline;
use crate::whitespace::TrailingWhitespace;
use crate::whitespace::eof_newline_emits;
use crate::whitespace::trailing_emits;
use crate::whitespace::whitespace_skip_status;
use vstd::string::StringExecFns;

verus! {

/// A configured whole-project rule.
pub enum ProjectRule {
    BannedDeps(BannedDeps),
    DirectDepDups(DirectDepDups),
    DirectDuplicateGitDependencies(DirectDuplicateGitDependencies),
}

impl ProjectRule {
    /// The rule's name.
    pub open spec fn spec_name(&self) -> Seq<char> {
        match self {
            ProjectRule::BannedDeps(_) => "banned-deps"@,
            ProjectRule::DirectDepDups(_) => "direct-dep-dups"@,
            ProjectRule::DirectDuplicateGitDependencies(_) =>
                "direct-duplicate-git-dependencies"@,
        }
    }

    /// Dispatches `name`.
    pub fn name(&self) -> (r: &'static str)
        ensures
            r@ == self.spec_name(),
    {
        match self {
            ProjectRule::BannedDeps(rule) => rule.name(),
            ProjectRule::DirectDepDups(rule) => rule.name(),
            ProjectRule::DirectDuplicateGitDependencies(rule) => rule.name(),
        }
    }

    /// The emits of the rule over the whole project.
    pub open spec fn spec_run(&self, base: &NexLintContext) -> Seq<EmitView> {
        let np = base.graph.packages@.len() as int;
        match self {
            ProjectRule::BannedDeps(rule) => banned_run_upto(
                &base.graph,
                rule.config.0@,
                base.workspace_hack_name,
                np,
            ),
            ProjectRule::DirectDepDups(rule) => dd_run_upto(
                &base.graph,
                base.workspace_hack_name,
                strs_view(rule.config.allow@),
                np,
            ),
            ProjectRule::DirectDuplicateGitDependencies(_) => gg_run_upto(
                &base.graph,
                base.workspace_hack_name,
                np,
            ),
        }
    }

    /// Dispatches `run`.
    pub fn run(&self, ctx: &ProjectContext<'_>) -> (r: Vec<Emit>)
        requires
            ctx.base.wf(),
        ensures
            emits_view(r@) == self.spec_run(ctx.base),
    {
        match self {
            ProjectRule::BannedDeps(rule) => rule.run(ctx),
            ProjectRule::DirectDepDups(rule) => rule.run(ctx),
            ProjectRule::DirectDuplicateGitDependencies(rule) => rule.run(ctx),
        }
    }
}

/// A configured per-package rule.
pub enum PackageRule {
    EnforcedAttributes(EnforcedAttributes),
    CrateNamesPaths(CrateNamesPaths),
    IrrelevantBuildDeps(IrrelevantBuildDeps),
    UnpublishedPackagesOnlyUsePathDependencies(UnpublishedPackagesOnlyUsePathDependencies),
    PublishedPackagesDontDependOnUnpublishedPackages(
        PublishedPackagesDontDependOnUnpublishedPackages,
    ),
    OnlyPublishToCratesIo(OnlyPublishToCratesIo),
    CratesInCratesDirectory(CratesInCratesDirectory),
    CratesOnlyInCratesDirectory(CratesOnlyInCratesDirectory),
}

impl PackageRule {
    /// The rule's name.
    pub open spec fn spec_name(&self) -> Seq<char> {
        match self {
            PackageRule::EnforcedAttributes(_) => "enforced-attributes"@,
            PackageRule::CrateNamesPaths(_) => "crate-names-paths"@,
            PackageRule::IrrelevantBuildDeps(_) => "irrelevant-build-deps"@,
            PackageRule::UnpublishedPackagesOnlyUsePathDependencies(_) =>
                "unpublished-packages-only-use-path-dependencies"@,
            PackageRule::PublishedPackagesDontDependOnUnpublishedPackages(_) =>
                "published-packages-dont-depend-on-unpublished-packages"@,
            PackageRule::OnlyPublishToCratesIo(_) => "only-publish-to-crates-io"@,
            PackageRule::CratesInCratesDirectory(_) => "crates-in-crates-directory"@,
            PackageRule::CratesOnlyInCratesDirectory(_) => "crates-only-in-crates-directory"@,
        }
    }

    /// Dispatches `name`.
    pub fn name(&self) -> (r: &'static str)
        ensures
            r@ == self.spec_name(),
    {
        match self {
            PackageRule::EnforcedAttributes(rule) => rule.name(),
            PackageRule::CrateNamesPaths(rule) => rule.name(),
            PackageRule::IrrelevantBuildDeps(rule) => rule.name(),
            PackageRule::UnpublishedPackagesOnlyUsePathDependencies(rule) => rule.name(),
            PackageRule::PublishedPackagesDontDependOnUnpublishedPackages(rule) => rule.name(),
            PackageRule::OnlyPublishToCratesIo(rule) => rule.name(),
            PackageRule::CratesInCratesDirectory(rule) => rule.name(),
            PackageRule::CratesOnlyInCratesDirectory(rule) => rule.name(),
        }
    }

    /// The emits of the rule for workspace member `i`.
    pub open spec fn spec_run(&self, base: &NexLintContext, i: int) -> Seq<EmitView> {
        match self {
            PackageRule::EnforcedAttributes(rule) => enforced_emits(&base.graph, &rule.config, i),
            PackageRule::CrateNamesPaths(_) => crate_names_emits(&base.graph, i),
            PackageRule::IrrelevantBuildDeps(_) => irrelevant_build_emits(&base.graph, i),
            PackageRule::UnpublishedPackagesOnlyUsePathDependencies(_) => unpub_version_emits(
                &base.graph,
                i,
            ),
            PackageRule::PublishedPackagesDontDependOnUnpublishedPackages(_) => pub_unpub_emits(
                &base.graph,
                i,
            ),
            PackageRule::OnlyPublishToCratesIo(_) => only_publish_emits(&base.graph, i),
            PackageRule::CratesInCratesDirectory(_) => crates_in_emits(&base.graph, i),
            PackageRule::CratesOnlyInCratesDirectory(_) => crates_only_emits(&base.graph, i),
        }
    }

    /// Dispatches `run`.
    pub fn run(&self, ctx: &PackageContext<'_>) -> (r: Vec<Emit>)
        requires
            ctx.wf(),
        ensures
            emits_view(r@) == self.spec_run(ctx.base, ctx.package as int),
    {
        match self {
            PackageRule::EnforcedAttributes(rule) => rule.run(ctx),
            PackageRule::CrateNamesPaths(rule) => rule.run(ctx),
            PackageRule::IrrelevantBuildDeps(rule) => rule.run(ctx),
            PackageRule::UnpublishedPackagesOnlyUsePathDependencies(rule) => rule.run(ctx),
            PackageRule::PublishedPackagesDontDependOnUnpublishedPackages(rule) => rule.run(ctx),
            PackageRule::OnlyPublishToCratesIo(rule) => rule.run(ctx),
            PackageRule::CratesInCratesDirectory(rule) => rule.run(ctx),
            PackageRule::CratesOnlyInCratesDirectory(rule) => rule.run(ctx),
        }
    }
}

/// A configured per-file-path rule.
pub enum FilePathRule {
    AllowedPaths(AllowedPaths),
}

impl FilePathRule {
    /// Validity of the configured rule value.
    pub open spec fn wf(&self) -> bool {
        match self {
            FilePathRule::AllowedPaths(rule) => rule.wf(),
        }
    }

    /// The rule's name.
    pub open spec fn spec_name(&self) -> Seq<char> {
        match self {
            FilePathRule::AllowedPaths(_) => "allowed-paths"@,
        }
    }

    /// Dispatches `name`.
    pub fn name(&self) -> (r: &'static str)
        ensures
            r@ == self.spec_name(),
    {
        match self {
            FilePathRule::AllowedPaths(rule) => rule.name(),
        }
    }

    /// The pre-run status for one path; the configured file-path rules
    /// apply to every path.
    pub open spec fn spec_pre_run(&self, path: Seq<char>) -> RunStatusView {
        RunStatusView::Executed
    }

    /// Consults the rule's pre-run hook.
    pub fn pre_run(&self, file_ctx: &FilePathContext<'_>) -> (r: RunStatus)
        ensures
            r@ == self.spec_pre_run(file_ctx.file_path@),
    {
        RunStatus::Executed
    }

    /// The emits of the rule for one path.
    pub open spec fn spec_run(&self, path: Seq<char>) -> Seq<EmitView> {
        match self {
            FilePathRule::AllowedPaths(rule) => allowed_paths_emits(rule.pattern@, path),
        }
    }

    /// Dispatches `run`.
    pub fn run(&self, ctx: &FilePathContext<'_>) -> (r: Vec<Emit>)
        requires
            self.wf(),
        ensures
            emits_view(r@) == self.spec_run(ctx.file_path@),
    {
        match self {
            FilePathRule::AllowedPaths(rule) => rule.run(ctx),
        }
    }
}

/// A configured per-file-content rule.
pub enum ContentRule {
    LicenseHeader(LicenseHeader),
    EofNewline(EofNewline),
    TrailingWhitespace(TrailingWhitespace),
}

impl ContentRule {
    /// The rule's name.
    pub open spec fn spec_name(&self) -> Seq<char> {
        match self {
            ContentRule::LicenseHeader(_) => "license-header"@,
            ContentRule::EofNewline(_) => "eof-newline"@,
            ContentRule::TrailingWhitespace(_) => "trailing-whitespace"@,
        }
    }

    /// Dispatches `name`.
    pub fn name(&self) -> (r: &'static str)
        ensures
            r@ == self.spec_name(),
    {
        match self {
            ContentRule::LicenseHeader(rule) => rule.name(),
            ContentRule::EofNewline(rule) => rule.name(),
            ContentRule::TrailingWhitespace(rule) => rule.name(),
        }
    }

    /// The pre-run status for one path: skipped by extension for the
    /// license rule, by exception glob for the whitespace rules.
    pub open spec fn spec_pre_run(&self, path: Seq<char>) -> RunStatusView {
        match self {
            ContentRule::LicenseHeader(_) => license_pre_run_status(path),
            ContentRule::EofNewline(rule) => whitespace_skip_status(
                crate::globs::globset_globs(rule.exceptions),
                path,
            ),
            ContentRule::TrailingWhitespace(rule) => whitespace_skip_status(
                crate::globs::globset_globs(rule.exceptions),
                path,
            ),
        }
    }

    /// Consults the rule's pre-run hook.
    pub fn pre_run(&self, file_ctx: &FilePathContext<'_>) -> (r: RunStatus)
        ensures
            r@ == self.spec_pre_run(file_ctx.file_path@),
    {
        match self {
            ContentRule::LicenseHeader(rule) => rule.pre_run(file_ctx),
            ContentRule::EofNewline(rule) => rule.pre_run(file_ctx),
            ContentRule::TrailingWhitespace(rule) => rule.pre_run(file_ctx),
        }
    }

    /// The emits of the rule for one decodable file.
    pub open spec fn spec_run(&self, path: Seq<char>, content: Seq<char>) -> Seq<EmitView> {
        match self {
            ContentRule::LicenseHeader(rule) => license_emits(
                file_type_of(extension_of(path))->Some_0,
                rule.0@,
                path,
                content,
            ),
            ContentRule::EofNewline(_) => eof_newline_emits(path, content),
            ContentRule::TrailingWhitespace(_) => trailing_emits(path, content),
        }
    }

    /// Dispatches `run`.
    pub fn run(&self, ctx: &ContentContext<'_>) -> (r: Vec<Emit>)
        requires
            self.spec_pre_run(ctx.file.file_path@) is Executed,
        ensures
            emits_view(r@) == self.spec_run(ctx.file.file_path@, ctx.content@),
    {
        match self {
            ContentRule::LicenseHeader(rule) => rule.run(ctx),
            ContentRule::EofNewline(rule) => rule.run(ctx),
            ContentRule::TrailingWhitespace(rule) => rule.run(ctx),
        }
    }
}

/// What one stage (or stage suffix) of a run produces: tagged messages,
/// skip records, and whether fail-fast stopped the run inside it.
#[verifier::ext_equal]
pub struct StageOut {
    pub messages: Seq<SourcedMessageView>,
    pub skipped: Seq<SkipView>,
    pub stopped: bool,
}

/// The empty stage result.
pub open spec fn stage_empty() -> StageOut {
    StageOut {
        messages: Seq::<SourcedMessageView>::empty(),
        skipped: Seq::<SkipView>::empty(),
        stopped: false,
    }
}

/// One invocation's output placed before the rest of a stage.
pub open spec fn stage_prepend(
    m: Seq<SourcedMessageView>,
    s: Seq<SkipView>,
    rest: StageOut,
) -> StageOut {
    StageOut { messages: m + rest.messages, skipped: s + rest.skipped, stopped: rest.stopped }
}

/// The project stage from rule index `k` on.
pub open spec fn project_stage_from(
    base: &NexLintContext,
    rules: Seq<ProjectRule>,
    ff: bool,
    k: int,
) -> StageOut
    decreases rules.len() - k,
{
    if k < 0 || k >= rules.len() {
        stage_empty()
    } else {
        let emits = rules[k].spec_run(base);
        let msgs = tag_emits(rules[k].spec_name(), emits);
        if ff && has_error(emits) {
            StageOut { messages: msgs, skipped: Seq::<SkipView>::empty(), stopped: true }
        } else {
            stage_prepend(
                msgs,
                Seq::<SkipView>::empty(),
                project_stage_from(base, rules, ff, k + 1),
            )
        }
    }
}

/// The rules of the package stage for member `i`, from rule index `k` on.
pub open spec fn package_rules_from(
    base: &NexLintContext,
    rules: Seq<PackageRule>,
    ff: bool,
    i: int,
    k: int,
) -> StageOut
    decreases rules.len() - k,
{
    if k < 0 || k >= rules.len() {
        stage_empty()
    } else {
        let emits = rules[k].spec_run(base, i);
        let msgs = tag_emits(rules[k].spec_name(), emits);
        if ff && has_error(emits) {
            StageOut { messages: msgs, skipped: Seq::<SkipView>::empty(), stopped: true }
        } else {
            stage_prepend(
                msgs,
                Seq::<SkipView>::empty(),
                package_rules_from(base, rules, ff, i, k + 1),
            )
        }
    }
}

/// The package stage from node index `i` on: one target per workspace
/// member, in node order.
pub open spec fn package_stage_from(
    base: &NexLintContext,
    rules: Seq<PackageRule>,
    ff: bool,
    i: int,
) -> StageOut
    decreases base.graph.packages@.len() - i,
{
    if i < 0 || i >= base.graph.packages@.len() {
        stage_empty()
    } else if !base.graph.in_workspace(i) {
        package_stage_from(base, rules, ff, i + 1)
    } else {
        let cur = package_rules_from(base, rules, ff, i, 0);
        if cur.stopped {
            cur
        } else {
            stage_prepend(cur.messages, cur.skipped, package_stage_from(base, rules, ff, i + 1))
        }
    }
}

/// The rules of the file-path stage for tracked file `f`, from rule index
/// `k` on.
pub open spec fn file_rules_from(
    base: &NexLintContext,
    rules: Seq<FilePathRule>,
    ff: bool,
    f: int,
    k: int,
) -> StageOut
    decreases rules.len() - k,
{
    if k < 0 || k >= rules.len() {
        stage_empty()
    } else {
        let path = base.files@[f].path@;
        match rules[k].spec_pre_run(path) {
            RunStatusView::Skipped(reason) => stage_prepend(
                Seq::<SourcedMessageView>::empty(),
                seq![SkipView { rule: rules[k].spec_name(), path: path, reason: reason }],
                file_rules_from(base, rules, ff, f, k + 1),
            ),
            RunStatusView::Executed => {
                let emits = rules[k].spec_run(path);
                let msgs = tag_emits(rules[k].spec_name(), emits);
                if ff && has_error(emits) {
                    StageOut { messages: msgs, skipped: Seq::<SkipView>::empty(), stopped: true }
                } else {
                    stage_prepend(
                        msgs,
                        Seq::<SkipView>::empty(),
                        file_rules_from(base, rules, ff, f, k + 1),
                    )
                }
            },
        }
    }
}

/// The file-path stage from tracked file `f` on.
pub open spec fn file_stage_from(
    base: &NexLintContext,
    rules: Seq<FilePathRule>,
    ff: bool,
    f: int,
) -> StageOut
    decreases base.files@.len() - f,
{
    if f < 0 || f >= base.files@.len() {
        stage_empty()
    } else {
        let cur = file_rules_from(base, rules, ff, f, 0);
        if cur.stopped {
            cur
        } else {
            stage_prepend(cur.messages, cur.skipped, file_stage_from(base, rules, ff, f + 1))
        }
    }
}

/// The rules of the content stage for tracked file `f`, from rule index `k`
/// on: a rule is consulted through its pre-run hook first; a file whose
/// bytes were not decodable text is recorded as skipped.
pub open spec fn content_rules_from(
    base: &NexLintContext,
    rules: Seq<ContentRule>,
    ff: bool,
    f: int,
    k: int,
) -> StageOut
    decreases rules.len() - k,
{
    if k < 0 || k >= rules.len() {
        stage_empty()
    } else {
        let file = base.files@[f];
        let path = file.path@;
        match rules[k].spec_pre_run(path) {
            RunStatusView::Skipped(reason) => stage_prepend(
                Seq::<SourcedMessageView>::empty(),
                seq![SkipView { rule: rules[k].spec_name(), path: path, reason: reason }],
                content_rules_from(base, rules, ff, f, k + 1),
            ),
            RunStatusView::Executed => match file.content {
                None => stage_prepend(
                    Seq::<SourcedMessageView>::empty(),
                    seq![
                        SkipView {
                            rule: rules[k].spec_name(),
                            path: path,
                            reason: crate::message::SkipReasonView::NonUtf8Content,
                        },
                    ],
                    content_rules_from(base, rules, ff, f, k + 1),
                ),
                Some(text) => {
                    let emits = rules[k].spec_run(path, text@);
                    let msgs = tag_emits(rules[k].spec_name(), emits);
                    if ff && has_error(emits) {
                        StageOut {
                            messages: msgs,
                            skipped: Seq::<SkipView>::empty(),
                            stopped: true,
                        }
                    } else {
                        stage_prepend(
                            msgs,
                            Seq::<SkipView>::empty(),
                            content_rules_from(base, rules, ff, f, k + 1),
                        )
                    }
                },
            },
        }
    }
}

/// The content stage from tracked file `f` on.
pub open spec fn content_stage_from(
    base: &NexLintContext,
    rules: Seq<ContentRule>,
    ff: bool,
    f: int,
) -> StageOut
    decreases base.files@.len() - f,
{
    if f < 0 || f >= base.files@.len() {
        stage_empty()
    } else {
        let cur = content_rules_from(base, rules, ff, f, 0);
        if cur.stopped {
            cur
        } else {
            stage_prepend(cur.messages, cur.skipped, content_stage_from(base, rules, ff, f + 1))
        }
    }
}

/// Runs the project stage, appending its output.
fn run_project_stage(
    base: &NexLintContext,
    rules: &Vec<ProjectRule>,
    ff: bool,
    msgs: &mut Vec<(LintSource, LintMessage)>,
    skips: &mut Vec<SkipEntry>,
) -> (stopped: bool)
    requires
        base.wf(),
    ensures
        ({
            let out = project_stage_from(base, rules@, ff, 0);
            &&& msgs_view(final(msgs)@) == msgs_view(old(msgs)@) + out.messages
            &&& skips_view(final(skips)@) == skips_view(old(skips)@) + out.skipped
            &&& stopped == out.stopped
        }),
{
    let ghost out0 = project_stage_from(base, rules@, ff, 0);
    let ghost m0 = msgs_view(msgs@);
    let ghost s0 = skips_view(skips@);
    let n = rules.len();
    let mut k: usize = 0;
    while k < n
        invariant
            base.wf(),
            n == rules@.len(),
            k <= n,
            out0 == project_stage_from(base, rules@, ff, 0),
            m0 == msgs_view(old(msgs)@),
            s0 == skips_view(old(skips)@),
            msgs_view(msgs@) + project_stage_from(base, rules@, ff, k as int).messages == m0
                + out0.messages,
            skips_view(skips@) + project_stage_from(base, rules@, ff, k as int).skipped == s0
                + out0.skipped,
            project_stage_from(base, rules@, ff, k as int).stopped == out0.stopped,
        decreases n - k,
    {
        let ghost outk = project_stage_from(base, rules@, ff, k as int);
        let pctx = ProjectContext::new(base);
        let emits = rules[k].run(&pctx);
        let ghost emv = emits_view(emits@);
        let nm = rules[k].name();
        let has_err = push_tagged(msgs, nm, emits);
        if ff && has_err {
            proof {
                assert(outk.messages == tag_emits(rules@[k as int].spec_name(), emv));
                assert(msgs_view(msgs@) + Seq::<SourcedMessageView>::empty() =~= msgs_view(
                    msgs@,
                ));
                assert(skips_view(skips@) + Seq::<SkipView>::empty() =~= skips_view(skips@));
            }
            return true;
        }
        k += 1;
        proof {
            let outk1 = project_stage_from(base, rules@, ff, k as int);
            assert(outk == stage_prepend(
                tag_emits(rules@[k - 1].spec_name(), emv),
                Seq::<SkipView>::empty(),
                outk1,
            ));
            assert(msgs_view(msgs@) + outk1.messages =~= m0 + out0.messages);
            assert(skips_view(skips@) + outk1.skipped =~= s0 + out0.skipped);
        }
    }
    proof {
        let outn = project_stage_from(base, rules@, ff, n as int);
        assert(msgs_view(msgs@) + outn.messages =~= msgs_view(msgs@));
        assert(skips_view(skips@) + outn.skipped =~= skips_view(skips@));
    }
    false
}

/// Runs every package rule against workspace member `i`.
fn run_package_rules(
    base: &NexLintContext,
    rules: &Vec<PackageRule>,
    ff: bool,
    i: usize,
    msgs: &mut Vec<(LintSource, LintMessage)>,
    skips: &mut Vec<SkipEntry>,
) -> (stopped: bool)
    requires
        base.wf(),
        (i as int) < base.graph.packages@.len(),
        base.graph.in_workspace(i as int),
    ensures
        ({
            let out = package_rules_from(base, rules@, ff, i as int, 0);
            &&& msgs_view(final(msgs)@) == msgs_view(old(msgs)@) + out.messages
            &&& skips_view(final(skips)@) == skips_view(old(skips)@) + out.skipped
            &&& stopped == out.stopped
        }),
{
    let ghost out0 = package_rules_from(base, rules@, ff, i as int, 0);
    let ghost m0 = msgs_view(msgs@);
    let ghost s0 = skips_view(skips@);
    let n = rules.len();
    let mut k: usize = 0;
    while k < n
        invariant
            base.wf(),
            (i as int) < base.graph.packages@.len(),
            base.graph.in_workspace(i as int),
            n == rules@.len(),
            k <= n,
            out0 == package_rules_from(base, rules@, ff, i as int, 0),
            m0 == msgs_view(old(msgs)@),
            s0 == skips_view(old(skips)@),
            msgs_view(msgs@) + package_rules_from(base, rules@, ff, i as int, k as int).messages
                == m0 + out0.messages,
            skips_view(skips@) + package_rules_from(base, rules@, ff, i as int, k as int).skipped
                == s0 + out0.skipped,
            package_rules_from(base, rules@, ff, i as int, k as int).stopped == out0.stopped,
        decreases n - k,
    {
        let ghost outk = package_rules_from(base, rules@, ff, i as int, k as int);
        let pctx = PackageContext::new(base, i);
        let emits = rules[k].run(&pctx);
        let ghost emv = emits_view(emits@);
        let nm = rules[k].name();
        let has_err = push_tagged(msgs, nm, emits);
        if ff && has_err {
            proof {
                assert(outk.messages == tag_emits(rules@[k as int].spec_name(), emv));
            }
            return true;
        }
        k += 1;
        proof {
            let outk1 = package_rules_from(base, rules@, ff, i as int, k as int);
            assert(outk == stage_prepend(
                tag_emits(rules@[k - 1].spec_name(), emv),
                Seq::<SkipView>::empty(),
                outk1,
            ));
            assert(msgs_view(msgs@) + outk1.messages =~= m0 + out0.messages);
            assert(skips_view(skips@) + outk1.skipped =~= s0 + out0.skipped);
        }
    }
    proof {
        let outn = package_rules_from(base, rules@, ff, i as int, n as int);
        assert(msgs_view(msgs@) + outn.messages =~= msgs_view(msgs@));
        assert(skips_view(skips@) + outn.skipped =~= skips_view(skips@));
    }
    false
}

/// Runs the package stage over every workspace member, in node order.
fn run_package_stage(
    base: &NexLintContext,
    rules: &Vec<PackageRule>,
    ff: bool,
    msgs: &mut Vec<(LintSource, LintMessage)>,
    skips: &mut Vec<SkipEntry>,
) -> (stopped: bool)
    requires
        base.wf(),
    ensures
        ({
            let out = package_stage_from(base, rules@, ff, 0);
            &&& msgs_view(final(msgs)@) == msgs_view(old(msgs)@) + out.messages
            &&& skips_view(final(skips)@) == skips_view(old(skips)@) + out.skipped
            &&& stopped == out.stopped
        }),
{
    let ghost out0 = package_stage_from(base, rules@, ff, 0);
    let ghost m0 = msgs_view(msgs@);
    let ghost s0 = skips_view(skips@);
    let np = base.graph.packages.len();
    let mut i: usize = 0;
    while i < np
        invariant
            base.wf(),
            np == base.graph.packages@.len(),
            i <= np,
            out0 == package_stage_from(base, rules@, ff, 0),
            m0 == msgs_view(old(msgs)@),
            s0 == skips_view(old(skips)@),
            msgs_view(msgs@) + package_stage_from(base, rules@, ff, i as int).messages == m0
                + out0.messages,
            skips_view(skips@) + package_stage_from(base, rules@, ff, i as int).skipped == s0
                + out0.skipped,
            package_stage_from(base, rules@, ff, i as int).stopped == out0.stopped,
        decreases np - i,
    {
        let ghost outi = package_stage_from(base, rules@, ff, i as int);
        if base.graph.packages[i].workspace_path.is_some() {
            let ghost cur = package_rules_from(base, rules@, ff, i as int, 0);
            let stopped = run_package_rules(base, rules, ff, i, msgs, skips);
            if stopped {
                proof {
                    assert(outi == cur);
                }
                return true;
            }
            proof {
                let outi1 = package_stage_from(base, rules@, ff, i + 1);
                assert(outi == stage_prepend(cur.messages, cur.skipped, outi1));
                assert(msgs_view(msgs@) + outi1.messages =~= m0 + out0.messages);
                assert(skips_view(skips@) + outi1.skipped =~= s0 + out0.skipped);
            }
        } else {
            proof {
                assert(outi == package_stage_from(base, rules@, ff, i + 1));
            }
        }
        i += 1;
    }
    proof {
        let outn = package_stage_from(base, rules@, ff, np as int);
        assert(msgs_view(msgs@) + outn.messages =~= msgs_view(msgs@));
        assert(skips_view(skips@) + outn.skipped =~= skips_view(skips@));
    }
    false
}

/// Runs every file-path rule against tracked file `f`.
fn run_file_rules(
    base: &NexLintContext,
    rules: &Vec<FilePathRule>,
    ff: bool,
    f: usize,
    msgs: &mut Vec<(LintSource, LintMessage)>,
    skips: &mut Vec<SkipEntry>,
) -> (stopped: bool)
    requires
        base.wf(),
        (f as int) < base.files@.len(),
        forall|k: int| 0 <= k < rules@.len() ==> (#[trigger] rules@[k]).wf(),
    ensures
        ({
            let out = file_rules_from(base, rules@, ff, f as int, 0);
            &&& msgs_view(final(msgs)@) == msgs_view(old(msgs)@) + out.messages
            &&& skips_view(final(skips)@) == skips_view(old(skips)@) + out.skipped
            &&& stopped == out.stopped
        }),
{
    let ghost out0 = file_rules_from(base, rules@, ff, f as int, 0);
    let ghost m0 = msgs_view(msgs@);
    let ghost s0 = skips_view(skips@);
    let file = &base.files[f];
    let n = rules.len();
    let mut k: usize = 0;
    while k < n
        invariant
            base.wf(),
            (f as int) < base.files@.len(),
            file == &base.files@[f as int],
            forall|t: int| 0 <= t < rules@.len() ==> (#[trigger] rules@[t]).wf(),
            n == rules@.len(),
            k <= n,
            out0 == file_rules_from(base, rules@, ff, f as int, 0),
            m0 == msgs_view(old(msgs)@),
            s0 == skips_view(old(skips)@),
            msgs_view(msgs@) + file_rules_from(base, rules@, ff, f as int, k as int).messages
                == m0 + out0.messages,
            skips_view(skips@) + file_rules_from(base, rules@, ff, f as int, k as int).skipped
                == s0 + out0.skipped,
            file_rules_from(base, rules@, ff, f as int, k as int).stopped == out0.stopped,
        decreases n - k,
    {
        let ghost outk = file_rules_from(base, rules@, ff, f as int, k as int);
        let fctx = FilePathContext::new(base, &file.path);
        let nm = rules[k].name();
        let status = rules[k].pre_run(&fctx);
        match status {
            RunStatus::Skipped(reason) => {
                let entry = SkipEntry {
                    rule: nm.to_owned(),
                    path: file.path.clone(),
                    reason,
                };
                let ghost entg = entry;
                let ghost olds = skips@;
                skips.push(entry);
                k += 1;
                proof {
                    crate::message::lemma_skips_view_push(olds, entg);
                    let outk1 = file_rules_from(base, rules@, ff, f as int, k as int);
                    assert(outk == stage_prepend(
                        Seq::<SourcedMessageView>::empty(),
                        seq![entg@],
                        outk1,
                    ));
                    assert(msgs_view(msgs@) + outk1.messages =~= m0 + out0.messages);
                    assert(skips_view(skips@) + outk1.skipped =~= s0 + out0.skipped);
                }
            },
            RunStatus::Executed => {
                let emits = rules[k].run(&fctx);
                let ghost emv = emits_view(emits@);
                let has_err = push_tagged(msgs, nm, emits);
                if ff && has_err {
                    proof {
                        assert(outk.messages == tag_emits(rules@[k as int].spec_name(), emv));
                    }
                    return true;
                }
                k += 1;
                proof {
                    let outk1 = file_rules_from(base, rules@, ff, f as int, k as int);
                    assert(outk == stage_prepend(
                        tag_emits(rules@[k - 1].spec_name(), emv),
                        Seq::<SkipView>::empty(),
                        outk1,
                    ));
                    assert(msgs_view(msgs@) + outk1.messages =~= m0 + out0.messages);
                    assert(skips_view(skips@) + outk1.skipped =~= s0 + out0.skipped);
                }
            },
        }
    }
    proof {
        let outn = file_rules_from(base, rules@, ff, f as int, n as int);
        assert(msgs_view(msgs@) + outn.messages =~= msgs_view(msgs@));
        assert(skips_view(skips@) + outn.skipped =~= skips_view(skips@));
    }
    false
}

/// Runs the file-path stage over every tracked file.
fn run_file_stage(
    base: &NexLintContext,
    rules: &Vec<FilePathRule>,
    ff: bool,
    msgs: &mut Vec<(LintSource, LintMessage)>,
    skips: &mut Vec<SkipEntry>,
) -> (stopped: bool)
    requires
        base.wf(),
        forall|k: int| 0 <= k < rules@.len() ==> (#[trigger] rules@[k]).wf(),
    ensures
        ({
            let out = file_stage_from(base, rules@, ff, 0);
            &&& msgs_view(final(msgs)@) == msgs_view(old(msgs)@) + out.messages
            &&& skips_view(final(skips)@) == skips_view(old(skips)@) + out.skipped
            &&& stopped == out.stopped
        }),
{
    let ghost out0 = file_stage_from(base, rules@, ff, 0);
    let ghost m0 = msgs_view(msgs@);
    let ghost s0 = skips_view(skips@);
    let nf = base.files.len();
    let mut f: usize = 0;
    while f < nf
        invariant
            base.wf(),
            forall|t: int| 0 <= t < rules@.len() ==> (#[trigger] rules@[t]).wf(),
            nf == base.files@.len(),
            f <= nf,
            out0 == file_stage_from(base, rules@, ff, 0),
            m0 == msgs_view(old(msgs)@),
            s0 == skips_view(old(skips)@),
            msgs_view(msgs@) + file_stage_from(base, rules@, ff, f as int).messages == m0
                + out0.messages,
            skips_view(skips@) + file_stage_from(base, rules@, ff, f as int).skipped == s0
                + out0.skipped,
            file_stage_from(base, rules@, ff, f as int).stopped == out0.stopped,
        decreases nf - f,
    {
        let ghost outf = file_stage_from(base, rules@, ff, f as int);
        let ghost cur = file_rules_from(base, rules@, ff, f as int, 0);
        let stopped = run_file_rules(base, rules, ff, f, msgs, skips);
        if stopped {
            proof {
                assert(outf == cur);
            }
            return true;
        }
        f += 1;
        proof {
            let outf1 = file_stage_from(base, rules@, ff, f as int);
            assert(outf == stage_prepend(cur.messages, cur.skipped, outf1));
            assert(msgs_view(msgs@) + outf1.messages =~= m0 + out0.messages);
            assert(skips_view(skips@) + outf1.skipped =~= s0 + out0.skipped);
        }
    }
    proof {
        let outn = file_stage_from(base, rules@, ff, nf as int);
        assert(msgs_view(msgs@) + outn.messages =~= msgs_view(msgs@));
        assert(skips_view(skips@) + outn.skipped =~= skips_view(skips@));
    }
    false
}

/// Runs every content rule against tracked file `f`.
fn run_content_rules(
    base: &NexLintContext,
    rules: &Vec<ContentRule>,
    ff: bool,
    f: usize,
    msgs: &mut Vec<(LintSource, LintMessage)>,
    skips: &mut Vec<SkipEntry>,
) -> (stopped: bool)
    requires
        base.wf(),
        (f as int) < base.files@.len(),
    ensures
        ({
            let out = content_rules_from(base, rules@, ff, f as int, 0);
            &&& msgs_view(final(msgs)@) == msgs_view(old(msgs)@) + out.messages
            &&& skips_view(final(skips)@) == skips_view(old(skips)@) + out.skipped
            &&& stopped == out.stopped
        }),
{
    let ghost out0 = content_rules_from(base, rules@, ff, f as int, 0);
    let ghost m0 = msgs_view(msgs@);
    let ghost s0 = skips_view(skips@);
    let file = &base.files[f];
    let n = rules.len();
    let mut k: usize = 0;
    while k < n
        invariant
            base.wf(),
            (f as int) < base.files@.len(),
            file == &base.files@[f as int],
            n == rules@.len(),
            k <= n,
            out0 == content_rules_from(base, rules@, ff, f as int, 0),
            m0 == msgs_view(old(msgs)@),
            s0 == skips_view(old(skips)@),
            msgs_view(msgs@) + content_rules_from(base, rules@, ff, f as int, k as int).messages
                == m0 + out0.messages,
            skips_view(skips@) + content_rules_from(base, rules@, ff, f as int, k as int).skipped
                == s0 + out0.skipped,
            content_rules_from(base, rules@, ff, f as int, k as int).stopped == out0.stopped,
        decreases n - k,
    {
        let ghost outk = content_rules_from(base, rules@, ff, f as int, k as int);
        let fctx = FilePathContext::new(base, &file.path);
        let nm = rules[k].name();
        let status = rules[k].pre_run(&fctx);
        match status {
            RunStatus::Skipped(reason) => {
                let entry = SkipEntry {
                    rule: nm.to_owned(),
                    path: file.path.clone(),
                    reason,
                };
                let ghost entg = entry;
                let ghost olds = skips@;
                skips.push(entry);
                k += 1;
                proof {
                    crate::message::lemma_skips_view_push(olds, entg);
                    let outk1 = content_rules_from(base, rules@, ff, f as int, k as int);
                    assert(outk == stage_prepend(
                        Seq::<SourcedMessageView>::empty(),
                        seq![entg@],
                        outk1,
                    ));
                    assert(msgs_view(msgs@) + outk1.messages =~= m0 + out0.messages);
                    assert(skips_view(skips@) + outk1.skipped =~= s0 + out0.skipped);
                }
            },
            RunStatus::Executed => {
                match &file.content {
                    Some(text) => {
                        let cctx = ContentContext::new(fctx, text);
                        let emits = rules[k].run(&cctx);
                        let ghost emv = emits_view(emits@);
                        let has_err = push_tagged(msgs, nm, emits);
                        if ff && has_err {
                            proof {
                                assert(outk.messages == tag_emits(
                                    rules@[k as int].spec_name(),
                                    emv,
                                ));
                            }
                            return true;
                        }
                        k += 1;
                        proof {
                            let outk1 = content_rules_from(base, rules@, ff, f as int, k as int);
                            assert(outk == stage_prepend(
                                tag_emits(rules@[k - 1].spec_name(), emv),
                                Seq::<SkipView>::empty(),
                                outk1,
                            ));
                            assert(msgs_view(msgs@) + outk1.messages =~= m0 + out0.messages);
                            assert(skips_view(skips@) + outk1.skipped =~= s0 + out0.skipped);
                        }
                    },
                    None => {
                        let entry = SkipEntry {
                            rule: nm.to_owned(),
                            path: file.path.clone(),
                            reason: crate::message::SkipReason::NonUtf8Content,
                        };
                        let ghost entg = entry;
                        let ghost olds = skips@;
                        skips.push(entry);
                        k += 1;
                        proof {
                            crate::message::lemma_skips_view_push(olds, entg);
                            let outk1 = content_rules_from(base, rules@, ff, f as int, k as int);
                            assert(outk == stage_prepend(
                                Seq::<SourcedMessageView>::empty(),
                                seq![entg@],
                                outk1,
                            ));
                            assert(msgs_view(msgs@) + outk1.messages =~= m0 + out0.messages);
                            assert(skips_view(skips@) + outk1.skipped =~= s0 + out0.skipped);
                        }
                    },
                }
            },
        }
    }
    proof {
        let outn = content_rules_from(base, rules@, ff, f as int, n as int);
        assert(msgs_view(msgs@) + outn.messages =~= msgs_view(msgs@));
        assert(skips_view(skips@) + outn.skipped =~= skips_view(skips@));
    }
    false
}

/// Runs the content stage over every tracked file.
fn run_content_stage(
    base: &NexLintContext,
    rules: &Vec<ContentRule>,
    ff: bool,
    msgs: &mut Vec<(LintSource, LintMessage)>,
    skips: &mut Vec<SkipEntry>,
) -> (stopped: bool)
    requires
        base.wf(),
    ensures
        ({
            let out = content_stage_from(base, rules@, ff, 0);
            &&& msgs_view(final(msgs)@) == msgs_view(old(msgs)@) + out.messages
            &&& skips_view(final(skips)@) == skips_view(old(skips)@) + out.skipped
            &&& stopped == out.stopped
        }),
{
    let ghost out0 = content_stage_from(base, rules@, ff, 0);
    let ghost m0 = msgs_view(msgs@);
    let ghost s0 = skips_view(skips@);
    let nf = base.files.len();
    let mut f: usize = 0;
    while f < nf
        invariant
            base.wf(),
            nf == base.files@.len(),
            f <= nf,
            out0 == content_stage_from(base, rules@, ff, 0),
            m0 == msgs_view(old(msgs)@),
            s0 == skips_view(old(skips)@),
            msgs_view(msgs@) + content_stage_from(base, rules@, ff, f as int).messages == m0
                + out0.messages,
            skips_view(skips@) + content_stage_from(base, rules@, ff, f as int).skipped == s0
                + out0.skipped,
            content_stage_from(base, rules@, ff, f as int).stopped == out0.stopped,
        decreases nf - f,
    {
        let ghost outf = content_stage_from(base, rules@, ff, f as int);
        let ghost cur = content_rules_from(base, rules@, ff, f as int, 0);
        let stopped = run_content_rules(base, rules, ff, f, msgs, skips);
        if stopped {
            proof {
                assert(outf == cur);
            }
            return true;
        }
        f += 1;
        proof {
            let outf1 = content_stage_from(base, rules@, ff, f as int);
            assert(outf == stage_prepend(cur.messages, cur.skipped, outf1));
            assert(msgs_view(msgs@) + outf1.messages =~= m0 + out0.messages);
            assert(skips_view(skips@) + outf1.skipped =~= s0 + out0.skipped);
        }
    }
    proof {
        let outn = content_stage_from(base, rules@, ff, nf as int);
        assert(msgs_view(msgs@) + outn.messages =~= msgs_view(msgs@));
        assert(skips_view(skips@) + outn.skipped =~= skips_view(skips@));
    }
    false
}

/// The configuration of one engine run: the rule lists per granularity and
/// the fail-fast flag.
pub struct LintEngineConfig {
    pub project_linters: Vec<ProjectRule>,
    pub package_linters: Vec<PackageRule>,
    pub file_path_linters: Vec<FilePathRule>,
    pub content_linters: Vec<ContentRule>,
    pub fail_fast: bool,
}

impl LintEngineConfig {
    /// Validity: every configured file-path rule is well-formed.
    pub open spec fn wf(&self) -> bool {
        forall|k: int|
            0 <= k < self.file_path_linters@.len() ==> (
            #[trigger] self.file_path_linters@[k]).wf()
    }

    /// Starts an empty configuration.
    pub fn new() -> (r: LintEngineConfig)
        ensures
            r.project_linters@.len() == 0,
            r.package_linters@.len() == 0,
            r.file_path_linters@.len() == 0,
            r.content_linters@.len() == 0,
            r.fail_fast == false,
            r.wf(),
    {
        LintEngineConfig {
            project_linters: Vec::new(),
            package_linters: Vec::new(),
            file_path_linters: Vec::new(),
            content_linters: Vec::new(),
            fail_fast: false,
        }
    }

    /// Sets the project rules.
    pub fn with_project_linters(self, linters: Vec<ProjectRule>) -> (r: LintEngineConfig)
        ensures
            r == (LintEngineConfig { project_linters: linters, ..self }),
    {
        LintEngineConfig { project_linters: linters, ..self }
    }

    /// Sets the package rules.
    pub fn with_package_linters(self, linters: Vec<PackageRule>) -> (r: LintEngineConfig)
        ensures
            r == (LintEngineConfig { package_linters: linters, ..self }),
    {
        LintEngineConfig { package_linters: linters, ..self }
    }

    /// Sets the file-path rules.
    pub fn with_file_path_linters(self, linters: Vec<FilePathRule>) -> (r: LintEngineConfig)
        ensures
            r == (LintEngineConfig { file_path_linters: linters, ..self }),
    {
        LintEngineConfig { file_path_linters: linters, ..self }
    }

    /// Sets the content rules.
    pub fn with_content_linters(self, linters: Vec<ContentRule>) -> (r: LintEngineConfig)
        ensures
            r == (LintEngineConfig { content_linters: linters, ..self }),
    {
        LintEngineConfig { content_linters: linters, ..self }
    }

    /// Sets the fail-fast flag.
    pub fn fail_fast(self, fail_fast: bool) -> (r: LintEngineConfig)
        ensures
            r == (LintEngineConfig { fail_fast, ..self }),
    {
        LintEngineConfig { fail_fast, ..self }
    }

    /// Finishes the configuration.
    pub fn build(self) -> (r: LintEngine)
        ensures
            r.config == self,
    {
        LintEngine { config: self }
    }
}

/// The lint engine: a built configuration, ready to run against a snapshot.
pub struct LintEngine {
    pub config: LintEngineConfig,
}

/// Everything one engine run returns for a snapshot and a configuration:
/// the four stages in order, cut short at the first error-level invocation
/// when fail-fast is set.
pub open spec fn engine_run_spec(base: &NexLintContext, cfg: &LintEngineConfig) -> ResultsView {
    let ff = cfg.fail_fast;
    let s1 = project_stage_from(base, cfg.project_linters@, ff, 0);
    if s1.stopped {
        ResultsView { messages: s1.messages, skipped: s1.skipped }
    } else {
        let s2 = package_stage_from(base, cfg.package_linters@, ff, 0);
        if s2.stopped {
            ResultsView { messages: s1.messages + s2.messages, skipped: s1.skipped + s2.skipped }
        } else {
            let s3 = file_stage_from(base, cfg.file_path_linters@, ff, 0);
            if s3.stopped {
                ResultsView {
                    messages: s1.messages + s2.messages + s3.messages,
                    skipped: s1.skipped + s2.skipped + s3.skipped,
                }
            } else {
                let s4 = content_stage_from(base, cfg.content_linters@, ff, 0);
                ResultsView {
                    messages: s1.messages + s2.messages + s3.messages + s4.messages,
                    skipped: s1.skipped + s2.skipped + s3.skipped + s4.skipped,
                }
            }
        }
    }
}

impl LintEngine {
    /// Validity of the built configuration.
    pub open spec fn wf(&self) -> bool {
        self.config.wf()
    }

    /// Runs every configured rule over every target of its granularity and
    /// returns the collected messages and skip records.  The result is a
    /// pure function of the snapshot and the configuration.
    pub fn run(&self, ctx: &NexLintContext) -> (r: LintResults)
        requires
            ctx.wf(),
            self.wf(),
        ensures
            r@ == engine_run_spec(ctx, &self.config),
    {
        let ff = self.config.fail_fast;
        let mut msgs: Vec<(LintSource, LintMessage)> = Vec::new();
        let mut skips: Vec<SkipEntry> = Vec::new();
        proof {
            assert(msgs_view(msgs@) =~= Seq::<SourcedMessageView>::empty());
            assert(skips_view(skips@) =~= Seq::<SkipView>::empty());
        }
        let ghost s1 = project_stage_from(ctx, self.config.project_linters@, ff, 0);
        let stopped1 = run_project_stage(ctx, &self.config.project_linters, ff, &mut msgs, &mut skips);
        proof {
            assert(msgs_view(msgs@) =~= s1.messages);
            assert(skips_view(skips@) =~= s1.skipped);
        }
        if stopped1 {
            return LintResults { messages: msgs, skipped: skips };
        }
        let ghost s2 = package_stage_from(ctx, self.config.package_linters@, ff, 0);
        let stopped2 = run_package_stage(ctx, &self.config.package_linters, ff, &mut msgs, &mut skips);
        if stopped2 {
            return LintResults { messages: msgs, skipped: skips };
        }
        let ghost s3 = file_stage_from(ctx, self.config.file_path_linters@, ff, 0);
        let stopped3 = run_file_stage(ctx, &self.config.file_path_linters, ff, &mut msgs, &mut skips);
        if stopped3 {
            return LintResults { messages: msgs, skipped: skips };
        }
        let ghost s4 = content_stage_from(ctx, self.config.content_linters@, ff, 0);
        let stopped4 = run_content_stage(ctx, &self.config.content_linters, ff, &mut msgs, &mut skips);
        proof {
            assert(msgs_view(msgs@) =~= s1.messages + s2.messages + s3.messages + s4.messages);
            assert(skips_view(skips@) =~= s1.skipped + s2.skipped + s3.skipped + s4.skipped);
        }
        LintResults { messages: msgs, skipped: skips }
    }
}

/// Law: the engine is deterministic — two results of running the same
/// configuration against the same unchanged snapshot are identical, message
/// for message and skip for skip.
pub proof fn lemma_run_idempotent(
    a: LintResults,
    b: LintResults,
    ctx: &NexLintContext,
    cfg: &LintEngineConfig,
)
    requires
        a@ == engine_run_spec(ctx, cfg),
        b@ == engine_run_spec(ctx, cfg),
    ensures
        a@ == b@,
{
}

/// Law: with fail-fast set, when the first-evaluated rule invocation emits
/// an error, the run's result holds that invocation's messages and nothing
/// from any later rule or target.
pub proof fn lemma_fail_fast_first_error(base: &NexLintContext, cfg: &LintEngineConfig)
    requires
        cfg.fail_fast,
        cfg.project_linters@.len() > 0,
        has_error(cfg.project_linters@[0].spec_run(base)),
    ensures
        engine_run_spec(base, cfg) == (ResultsView {
            messages: tag_emits(
                cfg.project_linters@[0].spec_name(),
                cfg.project_linters@[0].spec_run(base),
            ),
            skipped: Seq::<SkipView>::empty(),
        }),
{
    let s1 = project_stage_from(base, cfg.project_linters@, true, 0);
    assert(s1.stopped);
}

/// Stages with no configured rules produce nothing.
pub proof fn lemma_package_stage_no_rules(base: &NexLintContext, ff: bool, i: int)
    ensures
        (package_stage_from(base, Seq::<PackageRule>::empty(), ff, i) == stage_empty()),
    decreases base.graph.packages@.len() - i,
{
    if 0 <= i < base.graph.packages@.len() {
        lemma_package_stage_no_rules(base, ff, i + 1);
        assert(package_stage_from(base, Seq::<PackageRule>::empty(), ff, i) =~~= stage_empty());
    }
}

/// The file-path stage with no configured rules produces nothing.
pub proof fn lemma_file_stage_no_rules(base: &NexLintContext, ff: bool, f: int)
    ensures
        (file_stage_from(base, Seq::<FilePathRule>::empty(), ff, f) == stage_empty()),
    decreases base.files@.len() - f,
{
    if 0 <= f < base.files@.len() {
        lemma_file_stage_no_rules(base, ff, f + 1);
        assert(file_stage_from(base, Seq::<FilePathRule>::empty(), ff, f) =~~= stage_empty());
    }
}

/// The content stage with no configured rules produces nothing.
pub proof fn lemma_content_stage_no_rules(base: &NexLintContext, ff: bool, f: int)
    ensures
        (content_stage_from(base, Seq::<ContentRule>::empty(), ff, f) == stage_empty()),
    decreases base.files@.len() - f,
{
    if 0 <= f < base.files@.len() {
        lemma_content_stage_no_rules(base, ff, f + 1);
        assert(content_stage_from(base, Seq::<ContentRule>::empty(), ff, f) =~~= stage_empty());
    }
}

/// An engine with no configured rules reports nothing and skips nothing.
pub proof fn lemma_empty_bundle(base: &NexLintContext, cfg: &LintEngineConfig)
    requires
        cfg.project_linters@.len() == 0,
        cfg.package_linters@.len() == 0,
        cfg.file_path_linters@.len() == 0,
        cfg.content_linters@.len() == 0,
    ensures
        engine_run_spec(base, cfg).messages.len() == 0,
        engine_run_spec(base, cfg).skipped.len() == 0,
{
    assert(cfg.project_linters@ =~= Seq::<ProjectRule>::empty());
    assert(cfg.package_linters@ =~= Seq::<PackageRule>::empty());
    assert(cfg.file_path_linters@ =~= Seq::<FilePathRule>::empty());
    assert(cfg.content_linters@ =~= Seq::<ContentRule>::empty());
    lemma_package_stage_no_rules(base, cfg.fail_fast, 0);
    lemma_file_stage_no_rules(base, cfg.fail_fast, 0);
    lemma_content_stage_no_rules(base, cfg.fail_fast, 0);
}

} // verus!
