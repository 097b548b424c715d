//! The standard lint bundle: the rule set the `lint` command runs.

use vstd::prelude::*;
use crate::allowed_paths::AllowedPaths;
use crate::allowed_paths::DEFAULT_ALLOWED_PATHS_REGEX;
use crate::context::NexLintContext;
use crate::engine::ContentRule;
use crate::engine::FilePathRule;
use crate::engine::LintEngine;
use crate::engine::LintEngineConfig;
use crate::engine::PackageRule;
use crate::engine::ProjectRule;
use crate::engine::content_rules_from;
use crate::engine::content_stage_from;
use crate::engine::engine_run_spec;
use crate::engine::file_rules_from;
use crate::engine::file_stage_from;
use crate::engine::package_stage_from;
use crate::engine::project_stage_from;
use crate::engine::stage_empty;
use crate::errors::SystemError;
use crate::globs::globset_globs;
use crate::graph_rules::CrateNamesPaths;
use crate::graph_rules::DirectDepDups;
use crate::graph_rules::DirectDepDupsConfig;
use crate::graph_rules::IrrelevantBuildDeps;
use crate::graph_rules::OnlyPublishToCratesIo;
use crate::graph_rules::PublishedPackagesDontDependOnUnpublishedPackages;
use crate::graph_rules::UnpublishedPackagesOnlyUsePathDependencies;
use crate::license::LicenseHeader;
use crate::message::LintResults;
use crate::strutil::strs_view;
use crate::whitespace::EofNewline;
use crate::whitespace::TrailingWhitespace;
use crate::whitespace::build_exceptions;
use vstd::string::StringExecFns;

verus! {

/// The license header text every source file must carry.
pub const LICENSE_HEADER: &'static str = "SPDX-License-Identifier: MIT OR Apache-2.0\n";

/// Options of the `lint` command.
#[derive(Clone, Copy, Debug, PartialEq, Eq, Structural)]
pub struct Args {
    pub fail_fast: bool,
}

/// Whether `e` is the standard lint bundle with the given fail-fast flag:
/// the duplicate-dependency project rule with an empty allow-list, the five
/// package conventions, the default allowed-paths rule, and the license and
/// whitespace content rules with no exception globs.
pub open spec fn is_default_bundle(e: &LintEngine, fail_fast: bool) -> bool {
    &&& e.config.fail_fast == fail_fast
    &&& e.config.project_linters@.len() == 1
    &&& e.config.project_linters@[0] matches ProjectRule::DirectDepDups(d)
        && d.config.allow@.len() == 0
    &&& e.config.package_linters@.len() == 5
    &&& e.config.package_linters@[0] is CrateNamesPaths
    &&& e.config.package_linters@[1] is IrrelevantBuildDeps
    &&& e.config.package_linters@[2] is UnpublishedPackagesOnlyUsePathDependencies
    &&& e.config.package_linters@[3] is PublishedPackagesDontDependOnUnpublishedPackages
    &&& e.config.package_linters@[4] is OnlyPublishToCratesIo
    &&& e.config.file_path_linters@.len() == 1
    &&& e.config.file_path_linters@[0] matches FilePathRule::AllowedPaths(a) && a.wf()
        && a.pattern@ == DEFAULT_ALLOWED_PATHS_REGEX@
    &&& e.config.content_linters@.len() == 3
    &&& e.config.content_linters@[0] matches ContentRule::LicenseHeader(l) && l.0@
        == LICENSE_HEADER@
    &&& e.config.content_linters@[1] matches ContentRule::EofNewline(en) && globset_globs(
        en.exceptions,
    ).len() == 0
    &&& e.config.content_linters@[2] matches ContentRule::TrailingWhitespace(tw) && globset_globs(
        tw.exceptions,
    ).len() == 0
}

/// Whether the fixed configuration of the standard bundle builds: its
/// anchored path regex compiles and the (empty) exception glob set builds.
pub open spec fn default_bundle_builds() -> bool {
    crate::allowed_paths::regex_compiles(DEFAULT_ALLOWED_PATHS_REGEX@)
        && crate::globs::globset_builds(Seq::<Seq<char>>::empty())
}

/// Builds the standard lint bundle; success depends on nothing but the
/// bundle's fixed configuration.
pub fn default_engine(fail_fast: bool) -> (r: Result<LintEngine, SystemError>)
    ensures
        (r is Ok) == default_bundle_builds(),
        match r {
            Ok(e) => is_default_bundle(&e, fail_fast) && e.wf(),
            Err(e) => e matches SystemError::InvalidRegex { .. } || e
                matches SystemError::InvalidGlob { .. },
        },
{
    let direct_dups_config = DirectDepDupsConfig { allow: Vec::new() };
    let mut project_linters: Vec<ProjectRule> = Vec::new();
    project_linters.push(ProjectRule::DirectDepDups(DirectDepDups::new(direct_dups_config)));

    let mut package_linters: Vec<PackageRule> = Vec::new();
    package_linters.push(PackageRule::CrateNamesPaths(CrateNamesPaths));
    package_linters.push(PackageRule::IrrelevantBuildDeps(IrrelevantBuildDeps));
    package_linters.push(
        PackageRule::UnpublishedPackagesOnlyUsePathDependencies(
            UnpublishedPackagesOnlyUsePathDependencies::new(),
        ),
    );
    package_linters.push(
        PackageRule::PublishedPackagesDontDependOnUnpublishedPackages(
            PublishedPackagesDontDependOnUnpublishedPackages,
        ),
    );
    package_linters.push(PackageRule::OnlyPublishToCratesIo(OnlyPublishToCratesIo));

    let allowed = match AllowedPaths::new(DEFAULT_ALLOWED_PATHS_REGEX) {
        Ok(a) => a,
        Err(e) => {
            return Err(e);
        },
    };
    let mut file_path_linters: Vec<FilePathRule> = Vec::new();
    file_path_linters.push(FilePathRule::AllowedPaths(allowed));

    let no_patterns: Vec<String> = Vec::new();
    proof {
        assert(crate::strutil::strs_view(no_patterns@) =~= Seq::<Seq<char>>::empty());
    }
    let eof_exceptions = match build_exceptions(&no_patterns) {
        Ok(s) => s,
        Err(e) => {
            return Err(e);
        },
    };
    let trailing_exceptions = match build_exceptions(&no_patterns) {
        Ok(s) => s,
        Err(e) => {
            return Err(e);
        },
    };
    let mut content_linters: Vec<ContentRule> = Vec::new();
    content_linters.push(ContentRule::LicenseHeader(LicenseHeader::new(LICENSE_HEADER)));
    content_linters.push(ContentRule::EofNewline(EofNewline::new(eof_exceptions)));
    content_linters.push(
        ContentRule::TrailingWhitespace(TrailingWhitespace::new(trailing_exceptions)),
    );

    let engine = LintEngineConfig::new()
        .with_project_linters(project_linters)
        .with_package_linters(package_linters)
        .with_file_path_linters(file_path_linters)
        .with_content_linters(content_linters)
        .fail_fast(fail_fast)
        .build();
    Ok(engine)
}

/// Runs the standard lint bundle against the snapshot and returns the
/// collected results.  Success is owed whenever the bundle's fixed
/// configuration builds; the snapshot itself never causes a failure.
pub fn run(ctx: &NexLintContext, args: Args) -> (r: Result<LintResults, SystemError>)
    requires
        ctx.wf(),
    ensures
        (r is Ok) == default_bundle_builds(),
        match r {
            Ok(res) => exists|e: LintEngine|
                #[trigger] is_default_bundle(&e, args.fail_fast) && res@ == engine_run_spec(
                    ctx,
                    &e.config,
                ),
            Err(e) => e matches SystemError::InvalidRegex { .. } || e
                matches SystemError::InvalidGlob { .. },
        },
{
    let engine = match default_engine(args.fail_fast) {
        Ok(e) => e,
        Err(e) => {
            return Err(e);
        },
    };
    let results = engine.run(ctx);
    proof {
        assert(is_default_bundle(&engine, args.fail_fast) && results@ == engine_run_spec(
            ctx,
            &engine.config,
        ));
    }
    Ok(results)
}

/// The file-path stage does not depend on which of two equal-patterned
/// allowed-paths rules is configured.
proof fn lemma_file_stage_congruent(
    base: &NexLintContext,
    r1: Seq<FilePathRule>,
    r2: Seq<FilePathRule>,
    ff: bool,
    f: int,
)
    requires
        r1.len() == 1,
        r2.len() == 1,
        r1[0] matches FilePathRule::AllowedPaths(a1) && r2[0]
            matches FilePathRule::AllowedPaths(a2) && a1.pattern@ == a2.pattern@,
    ensures
        file_stage_from(base, r1, ff, f) == file_stage_from(base, r2, ff, f),
    decreases base.files@.len() - f,
{
    if 0 <= f < base.files@.len() {
        lemma_file_stage_congruent(base, r1, r2, ff, f + 1);
        let path = base.files@[f].path@;
        assert(r1[0].spec_run(path) == r2[0].spec_run(path));
        assert(r1[0].spec_name() == r2[0].spec_name());
        assert(file_rules_from(base, r1, ff, f, 1) == stage_empty());
        assert(file_rules_from(base, r2, ff, f, 1) == stage_empty());
        assert(file_rules_from(base, r1, ff, f, 0) =~~= file_rules_from(base, r2, ff, f, 0));
        assert(file_stage_from(base, r1, ff, f) =~~= file_stage_from(base, r2, ff, f));
    }
}

/// The content stage does not depend on which of two equally-configured
/// default content-rule lists is configured.
proof fn lemma_content_stage_congruent(
    base: &NexLintContext,
    r1: Seq<ContentRule>,
    r2: Seq<ContentRule>,
    ff: bool,
    f: int,
)
    requires
        r1.len() == 3,
        r2.len() == 3,
        r1[0] matches ContentRule::LicenseHeader(l1) && r2[0] matches ContentRule::LicenseHeader(
            l2,
        ) && l1.0@ == l2.0@,
        r1[1] matches ContentRule::EofNewline(en1) && r2[1] matches ContentRule::EofNewline(en2)
            && globset_globs(en1.exceptions) == globset_globs(en2.exceptions),
        r1[2] matches ContentRule::TrailingWhitespace(tw1) && r2[2]
            matches ContentRule::TrailingWhitespace(tw2) && globset_globs(tw1.exceptions)
            == globset_globs(tw2.exceptions),
    ensures
        content_stage_from(base, r1, ff, f) == content_stage_from(base, r2, ff, f),
    decreases base.files@.len() - f,
{
    if 0 <= f < base.files@.len() {
        lemma_content_stage_congruent(base, r1, r2, ff, f + 1);
        let path = base.files@[f].path@;
        assert(r1[0].spec_pre_run(path) == r2[0].spec_pre_run(path));
        assert(r1[1].spec_pre_run(path) == r2[1].spec_pre_run(path));
        assert(r1[2].spec_pre_run(path) == r2[2].spec_pre_run(path));
        assert(r1[0].spec_name() == r2[0].spec_name());
        assert(r1[1].spec_name() == r2[1].spec_name());
        assert(r1[2].spec_name() == r2[2].spec_name());
        match base.files@[f].content {
            Some(text) => {
                assert(r1[0].spec_run(path, text@) == r2[0].spec_run(path, text@));
                assert(r1[1].spec_run(path, text@) == r2[1].spec_run(path, text@));
                assert(r1[2].spec_run(path, text@) == r2[2].spec_run(path, text@));
            },
            None => {},
        }
        assert(content_rules_from(base, r1, ff, f, 3) == stage_empty());
        assert(content_rules_from(base, r2, ff, f, 3) == stage_empty());
        assert(content_rules_from(base, r1, ff, f, 2) =~~= content_rules_from(
            base,
            r2,
            ff,
            f,
            2,
        ));
        assert(content_rules_from(base, r1, ff, f, 1) =~~= content_rules_from(
            base,
            r2,
            ff,
            f,
            1,
        ));
        assert(content_rules_from(base, r1, ff, f, 0) =~~= content_rules_from(
            base,
            r2,
            ff,
            f,
            0,
        ));
        assert(content_stage_from(base, r1, ff, f) =~~= content_stage_from(base, r2, ff, f));
    }
}

/// Law: any two standard bundles with the same fail-fast flag return the
/// same results against the same snapshot — the run depends only on the
/// snapshot and the configured flag.
pub proof fn lemma_default_bundle_deterministic(
    e1: &LintEngine,
    e2: &LintEngine,
    ctx: &NexLintContext,
    fail_fast: bool,
)
    requires
        is_default_bundle(e1, fail_fast),
        is_default_bundle(e2, fail_fast),
    ensures
        engine_run_spec(ctx, &e1.config) == engine_run_spec(ctx, &e2.config),
{
    let ff = fail_fast;
    // Project stage: the one duplicate-dependency rule has an empty
    // allow-list in both bundles.
    let p1 = e1.config.project_linters@;
    let p2 = e2.config.project_linters@;
    assert(strs_view(p1[0]->DirectDepDups_0.config.allow@) =~= strs_view(
        p2[0]->DirectDepDups_0.config.allow@,
    ));
    assert(p1[0].spec_run(ctx) == p2[0].spec_run(ctx));
    assert(p1[0].spec_name() == p2[0].spec_name());
    assert(project_stage_from(ctx, p1, ff, 1) == stage_empty());
    assert(project_stage_from(ctx, p2, ff, 1) == stage_empty());
    assert(project_stage_from(ctx, p1, ff, 0) =~~= project_stage_from(ctx, p2, ff, 0));
    // Package stage: both rule lists hold the same five unit rules.
    assert(e1.config.package_linters@ =~= e2.config.package_linters@);
    assert(package_stage_from(ctx, e1.config.package_linters@, ff, 0) == package_stage_from(
        ctx,
        e2.config.package_linters@,
        ff,
        0,
    ));
    // File and content stages: congruent by the lemmas above.
    lemma_file_stage_congruent(
        ctx,
        e1.config.file_path_linters@,
        e2.config.file_path_linters@,
        ff,
        0,
    );
    let c1 = e1.config.content_linters@;
    let c2 = e2.config.content_linters@;
    assert(globset_globs(c1[1]->EofNewline_0.exceptions) =~= globset_globs(
        c2[1]->EofNewline_0.exceptions,
    ));
    assert(globset_globs(c1[2]->TrailingWhitespace_0.exceptions) =~= globset_globs(
        c2[2]->TrailingWhitespace_0.exceptions,
    ));
    lemma_content_stage_congruent(ctx, c1, c2, ff, 0);
    assert(engine_run_spec(ctx, &e1.config) =~~= engine_run_spec(ctx, &e2.config));
}

/// Law: running the standard lint bundle twice against the same unchanged
/// snapshot returns identical results, message for message and skip for
/// skip.
pub proof fn lemma_lint_run_idempotent(
    a: LintResults,
    b: LintResults,
    ctx: &NexLintContext,
    args: Args,
)
    requires
        exists|e: LintEngine|
            #[trigger] is_default_bundle(&e, args.fail_fast) && a@ == engine_run_spec(
                ctx,
                &e.config,
            ),
        exists|e: LintEngine|
            #[trigger] is_default_bundle(&e, args.fail_fast) && b@ == engine_run_spec(
                ctx,
                &e.config,
            ),
    ensures
        a@ == b@,
{
    let e1 = choose|e: LintEngine|
        #[trigger] is_default_bundle(&e, args.fail_fast) && a@ == engine_run_spec(ctx, &e.config);
    let e2 = choose|e: LintEngine|
        #[trigger] is_default_bundle(&e, args.fail_fast) && b@ == engine_run_spec(ctx, &e.config);
    lemma_default_bundle_deterministic(&e1, &e2, ctx, args.fail_fast);
}

} // verus!
