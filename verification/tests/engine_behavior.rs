//! Tests of the engine's dispatch, fail-fast behaviour, skip bookkeeping
//! and determinism.

use nexlint::context::{NexLintContext, TrackedFile};
use nexlint::engine::{ContentRule, LintEngineConfig, PackageRule, ProjectRule};
use nexlint::graph::{DependencyEdge, DepKind, Package, PackageGraph, PackageSource, PublishPolicy, Version};
use nexlint::graph_rules::{
    BannedDepConfig, BannedDeps, BannedDepsConfig, BannedDepType, CratesOnlyInCratesDirectory,
};
use nexlint::license::LicenseHeader;
use nexlint::lint;
use nexlint::message::{LintKind, SkipReason};
use nexlint::playground;
use nexlint::whitespace::{build_exceptions, TrailingWhitespace};

fn pkg(name: &str, workspace_path: Option<&str>) -> Package {
    Package {
        name: name.to_string(),
        version: Version::new(0, 1, 0),
        workspace_path: workspace_path.map(|p| p.to_string()),
        publish: PublishPolicy::Unrestricted,
        authors: vec![],
        license: None,
        build_targets: vec![],
        has_build_script: false,
        source: match workspace_path {
            Some(_) => PackageSource::Workspace,
            None => PackageSource::Registry("crates-io".to_string()),
        },
    }
}

fn banned_ctx() -> NexLintContext {
    // One workspace package outside crates/, depending on a banned crate:
    // both the project rule and the package rule would report.
    let graph = PackageGraph {
        packages: vec![pkg("a", Some("lib/a")), pkg("badcrate", None)],
        edges: vec![DependencyEdge {
            from: 0,
            to: 1,
            req: "1.0".to_string(),
            kind: DepKind::Normal,
        }],
    };
    NexLintContext::new(
        "/repo".to_string(),
        "/repo".to_string(),
        vec![],
        graph,
        None,
    )
    .expect("snapshot should build")
}

fn banned_engine(fail_fast: bool) -> nexlint::engine::LintEngine {
    let banned = BannedDeps::new(BannedDepsConfig(vec![(
        "badcrate".to_string(),
        BannedDepConfig { message: "no".to_string(), type_: BannedDepType::Always },
    )]));
    LintEngineConfig::new()
        .with_project_linters(vec![ProjectRule::BannedDeps(banned)])
        .with_package_linters(vec![PackageRule::CratesOnlyInCratesDirectory(
            CratesOnlyInCratesDirectory,
        )])
        .fail_fast(fail_fast)
        .build()
}

#[test]
fn fail_fast_stops_after_first_erroring_invocation() {
    let ctx = banned_ctx();
    let results = banned_engine(true).run(&ctx);
    // Only the project rule's message appears; the package stage never ran.
    assert_eq!(results.messages.len(), 1);
    assert_eq!(results.messages[0].0.name, "banned-deps");
}

#[test]
fn without_fail_fast_all_stages_run() {
    let ctx = banned_ctx();
    let results = banned_engine(false).run(&ctx);
    assert_eq!(results.messages.len(), 2);
    assert_eq!(results.messages[0].0.name, "banned-deps");
    assert_eq!(results.messages[0].0.kind, LintKind::Project);
    assert_eq!(results.messages[1].0.name, "crates-only-in-crates-directory");
    assert_eq!(
        results.messages[1].0.kind,
        LintKind::Package { name: "a".to_string(), workspace_path: "lib/a".to_string() }
    );
}

#[test]
fn engine_runs_are_idempotent() {
    let ctx = banned_ctx();
    let first = banned_engine(false).run(&ctx);
    let second = banned_engine(false).run(&ctx);
    assert_eq!(first, second);
}

fn content_ctx() -> NexLintContext {
    let graph = PackageGraph { packages: vec![], edges: vec![] };
    let files = vec![
        TrackedFile {
            path: "src/lib.rs".to_string(),
            content: Some("// SPDX-License-Identifier: MIT OR Apache-2.0\nfn f() {}\n".to_string()),
        },
        TrackedFile { path: "logo.png".to_string(), content: None },
        TrackedFile { path: "notes.txt".to_string(), content: Some("hello\n".to_string()) },
    ];
    NexLintContext::new("/repo".to_string(), "/repo".to_string(), files, graph, None)
        .expect("snapshot should build")
}

#[test]
fn content_stage_skip_bookkeeping() {
    let ctx = content_ctx();
    let engine = LintEngineConfig::new()
        .with_content_linters(vec![ContentRule::LicenseHeader(LicenseHeader::new(
            "SPDX-License-Identifier: MIT OR Apache-2.0\n",
        ))])
        .build();
    let results = engine.run(&ctx);
    // The Rust file carries the header: no messages at all.
    assert_eq!(results.messages.len(), 0);
    // The png has an unsupported extension; the txt file too.
    assert_eq!(results.skipped.len(), 2);
    assert_eq!(results.skipped[0].path, "logo.png");
    assert_eq!(
        results.skipped[0].reason,
        SkipReason::UnsupportedExtension(Some("png".to_string()))
    );
    assert_eq!(results.skipped[1].path, "notes.txt");
    assert_eq!(
        results.skipped[1].reason,
        SkipReason::UnsupportedExtension(Some("txt".to_string()))
    );
}

#[test]
fn non_utf8_content_is_skipped() {
    let graph = PackageGraph { packages: vec![], edges: vec![] };
    let files = vec![TrackedFile { path: "data.rs".to_string(), content: None }];
    let ctx = NexLintContext::new("/repo".to_string(), "/repo".to_string(), files, graph, None)
        .expect("snapshot should build");
    let engine = LintEngineConfig::new()
        .with_content_linters(vec![ContentRule::LicenseHeader(LicenseHeader::new(
            "SPDX-License-Identifier: MIT OR Apache-2.0\n",
        ))])
        .build();
    let results = engine.run(&ctx);
    assert_eq!(results.messages.len(), 0);
    assert_eq!(results.skipped.len(), 1);
    assert_eq!(results.skipped[0].reason, SkipReason::NonUtf8Content);
}

#[test]
fn whitespace_exception_glob_skips_file() {
    let graph = PackageGraph { packages: vec![], edges: vec![] };
    let files = vec![
        TrackedFile { path: "README.md".to_string(), content: Some("hi \n".to_string()) },
        TrackedFile { path: "a.rs".to_string(), content: Some("ok \n".to_string()) },
    ];
    let ctx = NexLintContext::new("/repo".to_string(), "/repo".to_string(), files, graph, None)
        .expect("snapshot should build");
    let exceptions = build_exceptions(&vec!["*.md".to_string()]).expect("globs parse");
    let engine = LintEngineConfig::new()
        .with_content_linters(vec![ContentRule::TrailingWhitespace(TrailingWhitespace::new(
            exceptions,
        ))])
        .build();
    let results = engine.run(&ctx);
    // README.md is exempt; a.rs has trailing whitespace on line 1.
    assert_eq!(results.skipped.len(), 1);
    assert_eq!(results.skipped[0].path, "README.md");
    assert_eq!(
        results.skipped[0].reason,
        SkipReason::UnsupportedFile("README.md".to_string())
    );
    assert_eq!(results.messages.len(), 1);
    assert_eq!(results.messages[0].1.message, "trailing whitespace at line 1");
}

#[test]
fn playground_reports_nothing() {
    let ctx = content_ctx();
    let results = playground::run(&ctx, playground::Args { dummy: false }).expect("no errors");
    assert_eq!(results.messages.len(), 0);
    assert_eq!(results.skipped.len(), 0);
}

#[test]
fn lint_bundle_runs_over_snapshot() {
    // A well-kept workspace: one package in crates/, publishable only to
    // the public registry, with a licensed source file.
    let mut foo = pkg("foo", Some("crates/foo"));
    foo.publish = PublishPolicy::Registries(vec!["crates-io".to_string()]);
    let graph = PackageGraph { packages: vec![foo], edges: vec![] };
    let files = vec![TrackedFile {
        path: "crates/foo/src/lib.rs".to_string(),
        content: Some("// SPDX-License-Identifier: MIT OR Apache-2.0\nfn f() {}\n".to_string()),
    }];
    let ctx = NexLintContext::new("/repo".to_string(), "/repo".to_string(), files, graph, None)
        .expect("snapshot should build");
    let results = lint::run(&ctx, lint::Args { fail_fast: false }).expect("bundle builds");
    assert_eq!(results.messages.len(), 0);
}

#[test]
fn lint_bundle_reports_violations() {
    // An ill-kept workspace: an oddly named package with a versioned
    // first-party dependency, a path with a space, a file without header or
    // final newline.
    let mut me = pkg("my_pkg", Some("crates/my_pkg"));
    me.publish = PublishPolicy::Registries(vec![]);
    let sib = pkg("sib", Some("crates/sib"));
    let graph = PackageGraph {
        packages: vec![me, sib],
        edges: vec![DependencyEdge {
            from: 0,
            to: 1,
            req: "1.0".to_string(),
            kind: DepKind::Normal,
        }],
    };
    let files = vec![TrackedFile {
        path: "bad path.rs".to_string(),
        content: Some("fn f() {}".to_string()),
    }];
    let ctx = NexLintContext::new("/repo".to_string(), "/repo".to_string(), files, graph, None)
        .expect("snapshot should build");
    let results = lint::run(&ctx, lint::Args { fail_fast: false }).expect("bundle builds");
    let names: Vec<&str> = results.messages.iter().map(|m| m.0.name.as_str()).collect();
    assert!(names.contains(&"crate-names-paths"));
    assert!(names.contains(&"unpublished-packages-only-use-path-dependencies"));
    assert!(names.contains(&"allowed-paths"));
    assert!(names.contains(&"license-header"));
    assert!(names.contains(&"eof-newline"));
}

#[test]
fn fail_fast_stops_mid_package_stage() {
    // Two workspace packages outside crates/: with fail-fast, only the
    // first target's message appears.
    let graph = PackageGraph {
        packages: vec![pkg("a", Some("lib/a")), pkg("b", Some("lib/b"))],
        edges: vec![],
    };
    let ctx = NexLintContext::new("/repo".to_string(), "/repo".to_string(), vec![], graph, None)
        .expect("snapshot should build");
    let engine = LintEngineConfig::new()
        .with_package_linters(vec![PackageRule::CratesOnlyInCratesDirectory(
            CratesOnlyInCratesDirectory,
        )])
        .fail_fast(true)
        .build();
    let results = engine.run(&ctx);
    assert_eq!(results.messages.len(), 1);
    assert_eq!(
        results.messages[0].0.kind,
        LintKind::Package { name: "a".to_string(), workspace_path: "lib/a".to_string() }
    );
}

#[test]
fn shell_license_header_after_shebang() {
    let graph = PackageGraph { packages: vec![], edges: vec![] };
    let files = vec![
        TrackedFile {
            path: "run.sh".to_string(),
            content: Some(
                "#!/bin/bash\n\n# SPDX-License-Identifier: MIT OR Apache-2.0\necho hi\n"
                    .to_string(),
            ),
        },
        TrackedFile {
            path: "bad.sh".to_string(),
            content: Some("#!/bin/bash\necho hi\n".to_string()),
        },
    ];
    let ctx = NexLintContext::new("/repo".to_string(), "/repo".to_string(), files, graph, None)
        .expect("snapshot should build");
    let engine = LintEngineConfig::new()
        .with_content_linters(vec![ContentRule::LicenseHeader(LicenseHeader::new(
            "SPDX-License-Identifier: MIT OR Apache-2.0\n",
        ))])
        .build();
    let results = engine.run(&ctx);
    assert_eq!(results.messages.len(), 1);
    assert_eq!(results.messages[0].0.kind, LintKind::Content("bad.sh".to_string()));
    assert_eq!(results.messages[0].1.message, "missing license header");
}

#[test]
fn whitespace_rules_at_end_of_file() {
    let graph = PackageGraph { packages: vec![], edges: vec![] };
    let files = vec![
        // Blank line at the end of the file.
        TrackedFile { path: "a.rs".to_string(), content: Some("fn f() {}\n\n".to_string()) },
        // Missing final newline.
        TrackedFile { path: "b.rs".to_string(), content: Some("fn f() {}".to_string()) },
    ];
    let ctx = NexLintContext::new("/repo".to_string(), "/repo".to_string(), files, graph, None)
        .expect("snapshot should build");
    let no_exceptions = build_exceptions(&vec![]).expect("empty globs build");
    let no_exceptions2 = build_exceptions(&vec![]).expect("empty globs build");
    let engine = LintEngineConfig::new()
        .with_content_linters(vec![
            ContentRule::EofNewline(nexlint::whitespace::EofNewline::new(no_exceptions)),
            ContentRule::TrailingWhitespace(TrailingWhitespace::new(no_exceptions2)),
        ])
        .build();
    let results = engine.run(&ctx);
    let texts: Vec<(&str, &str)> = results
        .messages
        .iter()
        .map(|m| (m.0.name.as_str(), m.1.message.as_str()))
        .collect();
    assert_eq!(
        texts,
        vec![
            ("trailing-whitespace", "trailing whitespace at EOF"),
            ("eof-newline", "missing newline at EOF"),
        ]
    );
}

#[test]
fn trailing_whitespace_covers_unicode_whitespace() {
    let graph = PackageGraph { packages: vec![], edges: vec![] };
    let files = vec![TrackedFile {
        path: "a.rs".to_string(),
        content: Some("hi\u{00A0}\nok\n".to_string()),
    }];
    let ctx = NexLintContext::new("/repo".to_string(), "/repo".to_string(), files, graph, None)
        .expect("snapshot should build");
    let exceptions = build_exceptions(&vec![]).expect("empty globs build");
    let engine = LintEngineConfig::new()
        .with_content_linters(vec![ContentRule::TrailingWhitespace(TrailingWhitespace::new(
            exceptions,
        ))])
        .build();
    let results = engine.run(&ctx);
    assert_eq!(results.messages.len(), 1);
    assert_eq!(results.messages[0].1.message, "trailing whitespace at line 1");
}

#[test]
fn lint_runs_are_idempotent() {
    let ctx = content_ctx();
    let first = lint::run(&ctx, lint::Args { fail_fast: false }).expect("bundle builds");
    let second = lint::run(&ctx, lint::Args { fail_fast: false }).expect("bundle builds");
    assert_eq!(first, second);
}
