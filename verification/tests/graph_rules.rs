//! Scenario tests for the dependency-graph rule set.

use nexlint::context::{NexLintContext, ProjectContext, PackageContext, TrackedFile};
use nexlint::graph::{
    BuildTarget, DepKind, DependencyEdge, Package, PackageGraph, PackageSource, PublishPolicy,
    Version,
};
use nexlint::graph_rules::{
    BannedDepConfig, BannedDeps, BannedDepsConfig, BannedDepType, CrateNamesPaths,
    CratesInCratesDirectory, CratesOnlyInCratesDirectory, DirectDepDups, DirectDepDupsConfig,
    DirectDuplicateGitDependencies, EnforcedAttributes, EnforcedAttributesConfig,
    IrrelevantBuildDeps, OnlyPublishToCratesIo,
    PublishedPackagesDontDependOnUnpublishedPackages,
    UnpublishedPackagesOnlyUsePathDependencies,
};
use nexlint::message::{LintKind, LintLevel};

fn pkg(name: &str, version: (u64, u64, u64), workspace_path: Option<&str>) -> Package {
    Package {
        name: name.to_string(),
        version: Version::new(version.0, version.1, version.2),
        workspace_path: workspace_path.map(|p| p.to_string()),
        publish: PublishPolicy::Unrestricted,
        authors: vec![],
        license: None,
        build_targets: vec![],
        has_build_script: false,
        source: match workspace_path {
            Some(_) => PackageSource::Workspace,
            None => PackageSource::Registry("crates-io".to_string()),
        },
    }
}

fn edge(from: usize, to: usize, req: &str) -> DependencyEdge {
    DependencyEdge { from, to, req: req.to_string(), kind: DepKind::Normal }
}

fn ctx(graph: PackageGraph, hack: Option<&str>) -> NexLintContext {
    NexLintContext::new(
        "/repo".to_string(),
        "/repo".to_string(),
        Vec::<TrackedFile>::new(),
        graph,
        hack.map(|h| h.to_string()),
    )
    .expect("snapshot should build")
}

#[test]
fn banned_always_reports_one_project_error() {
    // Two packages depend on the banned one; the Always policy still yields
    // exactly one project-level error.
    let graph = PackageGraph {
        packages: vec![
            pkg("a", (0, 1, 0), Some("crates/a")),
            pkg("b", (0, 1, 0), Some("crates/b")),
            pkg("badcrate", (1, 0, 0), None),
        ],
        edges: vec![edge(0, 2, "1.0"), edge(1, 2, "1.0")],
    };
    let c = ctx(graph, None);
    let pctx = ProjectContext::new(&c);
    let rule = BannedDeps::new(BannedDepsConfig(vec![(
        "badcrate".to_string(),
        BannedDepConfig { message: "do not use this".to_string(), type_: BannedDepType::Always },
    )]));
    let emits = rule.run(&pctx);
    assert_eq!(emits.len(), 1);
    assert_eq!(emits[0].kind, LintKind::Project);
    assert_eq!(emits[0].level, LintLevel::Error);
    assert_eq!(emits[0].message, "banned project dependency 'badcrate': do not use this");
}

#[test]
fn banned_direct_reports_one_error_per_dependent() {
    // Three reverse direct dependents, one of which is the workspace-hack
    // package: exactly two package-level errors.
    let graph = PackageGraph {
        packages: vec![
            pkg("a", (0, 1, 0), Some("crates/a")),
            pkg("b", (0, 1, 0), Some("crates/b")),
            pkg("hackpkg", (0, 1, 0), Some("crates/hackpkg")),
            pkg("badcrate", (1, 0, 0), None),
        ],
        edges: vec![edge(0, 3, "1.0"), edge(1, 3, "1.0"), edge(2, 3, "1.0")],
    };
    let c = ctx(graph, Some("hackpkg"));
    let pctx = ProjectContext::new(&c);
    let rule = BannedDeps::new(BannedDepsConfig(vec![(
        "badcrate".to_string(),
        BannedDepConfig { message: "nope".to_string(), type_: BannedDepType::Direct },
    )]));
    let emits = rule.run(&pctx);
    assert_eq!(emits.len(), 2);
    assert_eq!(
        emits[0].kind,
        LintKind::Package { name: "a".to_string(), workspace_path: "crates/a".to_string() }
    );
    assert_eq!(emits[0].message, "banned direct dependency 'badcrate': nope");
    assert_eq!(
        emits[1].kind,
        LintKind::Package { name: "b".to_string(), workspace_path: "crates/b".to_string() }
    );
}

fn dup_graph() -> PackageGraph {
    PackageGraph {
        packages: vec![
            pkg("a", (0, 1, 0), Some("crates/a")),
            pkg("b", (0, 1, 0), Some("crates/b")),
            pkg("dep", (1, 0, 0), None),
            pkg("dep", (1, 2, 0), None),
        ],
        edges: vec![edge(0, 2, "1.0"), edge(1, 3, "1.2")],
    }
}

#[test]
fn direct_dep_dups_two_versions_one_error() {
    let c = ctx(dup_graph(), None);
    let pctx = ProjectContext::new(&c);
    let rule = DirectDepDups::new(DirectDepDupsConfig { allow: vec![] });
    let emits = rule.run(&pctx);
    assert_eq!(emits.len(), 1);
    assert_eq!(emits[0].kind, LintKind::Project);
    assert_eq!(emits[0].level, LintLevel::Error);
    assert_eq!(
        emits[0].message,
        "duplicate direct dependency 'dep':\n  * 1.0.0 (a)\n  * 1.2.0 (b)\n"
    );
}

#[test]
fn direct_dep_dups_single_version_no_error() {
    let graph = PackageGraph {
        packages: vec![
            pkg("a", (0, 1, 0), Some("crates/a")),
            pkg("b", (0, 1, 0), Some("crates/b")),
            pkg("dep", (1, 0, 0), None),
        ],
        edges: vec![edge(0, 2, "1.0"), edge(1, 2, "1.0")],
    };
    let c = ctx(graph, None);
    let pctx = ProjectContext::new(&c);
    let rule = DirectDepDups::new(DirectDepDupsConfig { allow: vec![] });
    assert_eq!(rule.run(&pctx).len(), 0);
}

#[test]
fn direct_dep_dups_allowlisted_no_error() {
    let c = ctx(dup_graph(), None);
    let pctx = ProjectContext::new(&c);
    let rule = DirectDepDups::new(DirectDepDupsConfig { allow: vec!["dep".to_string()] });
    assert_eq!(rule.run(&pctx).len(), 0);
}

fn git_pkg(name: &str, version: (u64, u64, u64), repo: &str, resolved: &str) -> Package {
    let mut p = pkg(name, version, None);
    p.source = PackageSource::Git { repository: repo.to_string(), resolved: resolved.to_string() };
    p
}

#[test]
fn git_dups_two_hashes_one_error() {
    let graph = PackageGraph {
        packages: vec![
            pkg("a", (0, 1, 0), Some("crates/a")),
            pkg("b", (0, 1, 0), Some("crates/b")),
            git_pkg("g", (1, 0, 0), "https://example.com/g.git", "aaaa"),
            git_pkg("g", (1, 1, 0), "https://example.com/g.git", "bbbb"),
        ],
        edges: vec![edge(0, 2, "*"), edge(1, 3, "*")],
    };
    let c = ctx(graph, None);
    let pctx = ProjectContext::new(&c);
    let emits = DirectDuplicateGitDependencies.run(&pctx);
    assert_eq!(emits.len(), 1);
    assert_eq!(
        emits[0].message,
        "duplicate git dependency on repository 'https://example.com/g.git':\n  * aaaa:\n    * a -> g\n  * bbbb:\n    * b -> g\n"
    );
}

#[test]
fn git_dups_same_hash_no_error() {
    let graph = PackageGraph {
        packages: vec![
            pkg("a", (0, 1, 0), Some("crates/a")),
            pkg("b", (0, 1, 0), Some("crates/b")),
            git_pkg("g", (1, 0, 0), "https://example.com/g.git", "aaaa"),
            git_pkg("g", (1, 1, 0), "https://example.com/g.git", "aaaa"),
        ],
        edges: vec![edge(0, 2, "*"), edge(1, 3, "*")],
    };
    let c = ctx(graph, None);
    let pctx = ProjectContext::new(&c);
    assert_eq!(DirectDuplicateGitDependencies.run(&pctx).len(), 0);
}

#[test]
fn unpublished_with_version_req_one_error() {
    let mut sib = pkg("sib", (0, 1, 0), Some("crates/sib"));
    sib.publish = PublishPolicy::Unrestricted;
    let mut me = pkg("me", (0, 1, 0), Some("crates/me"));
    me.publish = PublishPolicy::Registries(vec![]);
    let graph = PackageGraph { packages: vec![me, sib], edges: vec![edge(0, 1, "1.0")] };
    let c = ctx(graph, None);
    let pctx = PackageContext::new(&c, 0);
    let emits = UnpublishedPackagesOnlyUsePathDependencies::new().run(&pctx);
    assert_eq!(emits.len(), 1);
    assert_eq!(
        emits[0].message,
        "unpublished package specifies a version of first-party dependency 'sib' (1.0); \
         unpublished packages should only use path dependencies for first-party packages."
    );
}

#[test]
fn unpublished_with_wildcard_req_no_error() {
    let sib = pkg("sib", (0, 1, 0), Some("crates/sib"));
    let mut me = pkg("me", (0, 1, 0), Some("crates/me"));
    me.publish = PublishPolicy::Registries(vec![]);
    let graph = PackageGraph { packages: vec![me, sib], edges: vec![edge(0, 1, "*")] };
    let c = ctx(graph, None);
    let pctx = PackageContext::new(&c, 0);
    assert_eq!(UnpublishedPackagesOnlyUsePathDependencies::new().run(&pctx).len(), 0);
}

#[test]
fn published_depending_on_unpublished_one_error() {
    let mut sib = pkg("sib", (0, 1, 0), Some("crates/sib"));
    sib.publish = PublishPolicy::Registries(vec![]);
    let me = pkg("me", (0, 1, 0), Some("crates/me"));
    let graph = PackageGraph { packages: vec![me, sib], edges: vec![edge(0, 1, "1.0")] };
    let c = ctx(graph, None);
    let pctx = PackageContext::new(&c, 0);
    let emits = PublishedPackagesDontDependOnUnpublishedPackages.run(&pctx);
    assert_eq!(emits.len(), 1);
    assert_eq!(emits[0].message, "published package can't depend on unpublished package 'sib'");
}

#[test]
fn only_publish_to_crates_io_cases() {
    let cases = vec![
        (PublishPolicy::Registries(vec![]), 0),
        (PublishPolicy::Registries(vec!["crates-io".to_string()]), 0),
        (PublishPolicy::Unrestricted, 1),
        (PublishPolicy::Registries(vec!["other".to_string()]), 1),
        (
            PublishPolicy::Registries(vec!["crates-io".to_string(), "other".to_string()]),
            1,
        ),
    ];
    for (publish, expected) in cases {
        let mut me = pkg("me", (0, 1, 0), Some("crates/me"));
        me.publish = publish;
        let graph = PackageGraph { packages: vec![me], edges: vec![] };
        let c = ctx(graph, None);
        let pctx = PackageContext::new(&c, 0);
        assert_eq!(OnlyPublishToCratesIo.run(&pctx).len(), expected);
    }
}

#[test]
fn crates_directory_conventions() {
    // Well-placed package: no errors from either directory rule.
    let graph = PackageGraph {
        packages: vec![pkg("foo", (0, 1, 0), Some("crates/foo"))],
        edges: vec![],
    };
    let c = ctx(graph, None);
    let pctx = PackageContext::new(&c, 0);
    assert_eq!(CratesOnlyInCratesDirectory.run(&pctx).len(), 0);
    assert_eq!(CratesInCratesDirectory.run(&pctx).len(), 0);
}

#[test]
fn crates_outside_crates_directory_one_error() {
    let graph = PackageGraph {
        packages: vec![pkg("foo", (0, 1, 0), Some("lib/foo"))],
        edges: vec![],
    };
    let c = ctx(graph, None);
    let pctx = PackageContext::new(&c, 0);
    let emits = CratesOnlyInCratesDirectory.run(&pctx);
    assert_eq!(emits.len(), 1);
    assert_eq!(emits[0].message, "crates are only allowed to be in the `crates/` directory");
    // The in-crates rule does not apply outside crates/.
    assert_eq!(CratesInCratesDirectory.run(&pctx).len(), 0);
}

#[test]
fn crates_directory_name_mismatch_one_error() {
    let graph = PackageGraph {
        packages: vec![pkg("foo", (0, 1, 0), Some("crates/bar"))],
        edges: vec![],
    };
    let c = ctx(graph, None);
    let pctx = PackageContext::new(&c, 0);
    let emits = CratesInCratesDirectory.run(&pctx);
    assert_eq!(emits.len(), 1);
    assert_eq!(
        emits[0].message,
        "crates in the `crates/` directory must be in a directory with the same name as the crate"
    );
}

#[test]
fn crates_directory_nesting_one_error() {
    let graph = PackageGraph {
        packages: vec![pkg("foo", (0, 1, 0), Some("crates/foo/sub"))],
        edges: vec![],
    };
    let c = ctx(graph, None);
    let pctx = PackageContext::new(&c, 0);
    let emits = CratesInCratesDirectory.run(&pctx);
    assert_eq!(emits.len(), 1);
    assert_eq!(
        emits[0].message,
        "crates in the `crates/` directory must be in a flat directory structure, no nesting"
    );
}

#[test]
fn enforced_attributes_mismatches() {
    let mut me = pkg("me", (0, 1, 0), Some("crates/me"));
    me.authors = vec!["Someone Else".to_string()];
    me.license = Some("MIT".to_string());
    let graph = PackageGraph { packages: vec![me], edges: vec![] };
    let c = ctx(graph, None);
    let pctx = PackageContext::new(&c, 0);
    let rule = EnforcedAttributes::new(EnforcedAttributesConfig {
        authors: Some(vec!["The Authors".to_string()]),
        license: Some("Apache-2.0".to_string()),
    });
    let emits = rule.run(&pctx);
    assert_eq!(emits.len(), 2);
    assert_eq!(emits[0].message, "invalid authors (expected The Authors)");
    assert_eq!(emits[1].message, "invalid license (expected Apache-2.0)");
}

#[test]
fn enforced_attributes_matching_no_error() {
    let mut me = pkg("me", (0, 1, 0), Some("crates/me"));
    me.authors = vec!["The Authors".to_string()];
    me.license = Some("Apache-2.0".to_string());
    let graph = PackageGraph { packages: vec![me], edges: vec![] };
    let c = ctx(graph, None);
    let pctx = PackageContext::new(&c, 0);
    let rule = EnforcedAttributes::new(EnforcedAttributesConfig {
        authors: Some(vec!["The Authors".to_string()]),
        license: Some("Apache-2.0".to_string()),
    });
    assert_eq!(rule.run(&pctx).len(), 0);
}

#[test]
fn irrelevant_build_deps_flagged() {
    let me = pkg("me", (0, 1, 0), Some("crates/me"));
    let dep = pkg("build-helper", (1, 0, 0), None);
    let graph = PackageGraph {
        packages: vec![me, dep],
        edges: vec![DependencyEdge {
            from: 0,
            to: 1,
            req: "1.0".to_string(),
            kind: DepKind::Build,
        }],
    };
    let c = ctx(graph, None);
    let pctx = PackageContext::new(&c, 0);
    let emits = IrrelevantBuildDeps.run(&pctx);
    assert_eq!(emits.len(), 1);
    assert_eq!(emits[0].message, "build dependencies but no build script");
}

#[test]
fn crate_names_paths_underscores() {
    let mut me = pkg("my_crate", (0, 1, 0), Some("crates/my_crate"));
    me.build_targets = vec![
        BuildTarget { name: "my_tool".to_string(), path: "src/bin/other.rs".to_string() },
        // Implicitly named by its file: not reported.
        BuildTarget { name: "my_bin".to_string(), path: "src/bin/my_bin.rs".to_string() },
    ];
    let graph = PackageGraph { packages: vec![me], edges: vec![] };
    let c = ctx(graph, None);
    let pctx = PackageContext::new(&c, 0);
    let emits = CrateNamesPaths.run(&pctx);
    assert_eq!(emits.len(), 3);
    assert_eq!(emits[0].message, "crate name contains '_' (use '-' instead)");
    assert_eq!(emits[1].message, "workspace path contains '_' (use '-' instead)");
    assert_eq!(emits[2].message, "build target 'my_tool' contains '_' (use '-' instead)");
}

#[test]
fn direct_dep_dups_ignores_workspace_hack_edges() {
    // The second version is reached only through the workspace-hack
    // package, so no duplication is reported.
    let graph = PackageGraph {
        packages: vec![
            pkg("a", (0, 1, 0), Some("crates/a")),
            pkg("hackpkg", (0, 1, 0), Some("crates/hackpkg")),
            pkg("dep", (1, 0, 0), None),
            pkg("dep", (1, 2, 0), None),
        ],
        edges: vec![edge(0, 2, "1.0"), edge(1, 3, "1.2")],
    };
    let c = ctx(graph, Some("hackpkg"));
    let pctx = ProjectContext::new(&c);
    let rule = DirectDepDups::new(DirectDepDupsConfig { allow: vec![] });
    assert_eq!(rule.run(&pctx).len(), 0);
}

#[test]
fn direct_dep_dups_same_version_two_sources_no_error() {
    // The same name and version reached from two different sources (a
    // registry copy and a git copy) is one distinct version: no error.
    let graph = PackageGraph {
        packages: vec![
            pkg("a", (0, 1, 0), Some("crates/a")),
            pkg("b", (0, 1, 0), Some("crates/b")),
            pkg("dep", (1, 0, 0), None),
            git_pkg("dep", (1, 0, 0), "https://example.com/dep.git", "aaaa"),
        ],
        edges: vec![edge(0, 2, "1.0"), edge(1, 3, "1.0")],
    };
    let c = ctx(graph, None);
    let pctx = ProjectContext::new(&c);
    let rule = DirectDepDups::new(DirectDepDupsConfig { allow: vec![] });
    assert_eq!(rule.run(&pctx).len(), 0);
}

#[test]
fn direct_dep_dups_merges_dependents_of_equal_versions() {
    // Two copies of version 1.0.0 and one of 2.0.0: one error, the 1.0.0
    // line listing both dependents.
    let graph = PackageGraph {
        packages: vec![
            pkg("a", (0, 1, 0), Some("crates/a")),
            pkg("b", (0, 1, 0), Some("crates/b")),
            pkg("c", (0, 1, 0), Some("crates/c")),
            pkg("dep", (1, 0, 0), None),
            git_pkg("dep", (1, 0, 0), "https://example.com/dep.git", "aaaa"),
            pkg("dep", (2, 0, 0), None),
        ],
        edges: vec![edge(0, 3, "1.0"), edge(1, 4, "1.0"), edge(2, 5, "2.0")],
    };
    let c = ctx(graph, None);
    let pctx = ProjectContext::new(&c);
    let rule = DirectDepDups::new(DirectDepDupsConfig { allow: vec![] });
    let emits = rule.run(&pctx);
    assert_eq!(emits.len(), 1);
    assert_eq!(
        emits[0].message,
        "duplicate direct dependency 'dep':\n  * 1.0.0 (a, b)\n  * 2.0.0 (c)\n"
    );
}

#[test]
fn direct_dep_dups_distinguishes_prereleases() {
    // Two pre-releases of the same numeric triple are distinct versions.
    let mut d1 = pkg("dep", (1, 0, 0), None);
    d1.version = Version::full(1, 0, 0, "alpha.1".to_string(), String::new());
    let mut d2 = pkg("dep", (1, 0, 0), None);
    d2.version = Version::full(1, 0, 0, "beta".to_string(), String::new());
    let graph = PackageGraph {
        packages: vec![
            pkg("a", (0, 1, 0), Some("crates/a")),
            pkg("b", (0, 1, 0), Some("crates/b")),
            d1,
            d2,
        ],
        edges: vec![edge(0, 2, "1.0.0-alpha.1"), edge(1, 3, "1.0.0-beta")],
    };
    let c = ctx(graph, None);
    let pctx = ProjectContext::new(&c);
    let rule = DirectDepDups::new(DirectDepDupsConfig { allow: vec![] });
    let emits = rule.run(&pctx);
    assert_eq!(emits.len(), 1);
    assert_eq!(
        emits[0].message,
        "duplicate direct dependency 'dep':\n  * 1.0.0-alpha.1 (a)\n  * 1.0.0-beta (b)\n"
    );
}

#[test]
fn unpublished_dep_under_two_kinds_one_error() {
    // One dependency declared as both a normal and a build dependency is
    // one link: one error, carrying the first link's requirement.
    let sib = pkg("sib", (0, 1, 0), Some("crates/sib"));
    let mut me = pkg("me", (0, 1, 0), Some("crates/me"));
    me.publish = PublishPolicy::Registries(vec![]);
    let graph = PackageGraph {
        packages: vec![me, sib],
        edges: vec![
            DependencyEdge { from: 0, to: 1, req: "1.0".to_string(), kind: DepKind::Normal },
            DependencyEdge { from: 0, to: 1, req: "1.0".to_string(), kind: DepKind::Build },
        ],
    };
    let c = ctx(graph, None);
    let pctx = PackageContext::new(&c, 0);
    let emits = UnpublishedPackagesOnlyUsePathDependencies::new().run(&pctx);
    assert_eq!(emits.len(), 1);
}
