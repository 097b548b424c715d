//! The dependency-graph rule set: project-scope and package-scope rules
//! that walk the resolved package graph.
//!
//! Every rule is a pure function of the graph snapshot: it iterates nodes
//! and edges in their given order, so its output is deterministic.  Rules
//! that analyse dependency fan-in exclude edges originating from the
//! configured workspace-hack package.

use vstd::prelude::*;
use crate::context::PackageContext;
use crate::context::ProjectContext;
use crate::graph::DepKind;
use crate::graph::PackageGraph;
use crate::graph::PublishPolicy;
use crate::graph::Version;
use crate::graph::version_chars;
use crate::graph::version_same;
use crate::message::Emit;
use crate::message::EmitView;
use crate::message::KindView;
use crate::message::LintKind;
use crate::message::LintLevel;
use crate::message::emits_view;
use crate::strutil::components_of;
use crate::strutil::join_with;
use crate::strutil::split_components;
use crate::strutil::str_contains_char;
use crate::strutil::str_eq;
use crate::strutil::strings_contain;
use crate::strutil::strs_view;
use vstd::string::StringExecFns;

verus! {

/// The package-kind descriptor of workspace member `i`.
pub open spec fn pkg_kind(g: &PackageGraph, i: int) -> KindView {
    KindView::Package {
        name: g.packages@[i].name@,
        workspace_path: g.packages@[i].workspace_path->Some_0@,
    }
}

/// Builds the package-kind descriptor for the package under scrutiny.
fn make_pkg_kind(ctx: &PackageContext<'_>) -> (r: LintKind)
    requires
        ctx.wf(),
    ensures
        r@ == pkg_kind(&ctx.base.graph, ctx.package as int),
{
    LintKind::Package {
        name: ctx.metadata().name.clone(),
        workspace_path: ctx.workspace_path().clone(),
    }
}

/// Enforces that every workspace package lives in the `crates/` directory.
#[derive(Clone, Copy, Debug, PartialEq, Eq)]
pub struct CratesOnlyInCratesDirectory;

/// The emits of `CratesOnlyInCratesDirectory` for workspace member `i`.
pub open spec fn crates_only_emits(g: &PackageGraph, i: int) -> Seq<EmitView> {
    let comps = components_of(g.packages@[i].workspace_path->Some_0@, '/');
    if comps.len() == 0 || comps[0] != "crates"@ {
        seq![
            EmitView {
                kind: pkg_kind(g, i),
                level: LintLevel::Error,
                message: "crates are only allowed to be in the `crates/` directory"@,
            },
        ]
    } else {
        Seq::<EmitView>::empty()
    }
}

impl CratesOnlyInCratesDirectory {
    /// The rule's name.
    pub fn name(&self) -> (r: &'static str)
        ensures
            r@ == "crates-only-in-crates-directory"@,
    {
        "crates-only-in-crates-directory"
    }

    /// Reports a workspace package whose path does not start at `crates/`.
    pub fn run(&self, ctx: &PackageContext<'_>) -> (r: Vec<Emit>)
        requires
            ctx.wf(),
        ensures
            emits_view(r@) == crates_only_emits(&ctx.base.graph, ctx.package as int),
    {
        let comps = split_components(ctx.workspace_path().as_str(), '/');
        let mut r: Vec<Emit> = Vec::new();
        if comps.len() == 0 || !str_eq(comps[0].as_str(), "crates") {
            proof {
                if comps@.len() > 0 {
                    assert(strs_view(comps@)[0] == comps@[0]@);
                }
            }
            r.push(
                Emit {
                    kind: make_pkg_kind(ctx),
                    level: LintLevel::Error,
                    message: String::from_str(
                        "crates are only allowed to be in the `crates/` directory",
                    ),
                },
            );
        } else {
            proof {
                assert(strs_view(comps@)[0] == comps@[0]@);
            }
        }
        proof {
            assert(emits_view(r@) =~= crates_only_emits(&ctx.base.graph, ctx.package as int));
        }
        r
    }
}

/// Enforces the layout inside the `crates/` directory: a flat directory
/// whose name equals the crate's name.
#[derive(Clone, Copy, Debug, PartialEq, Eq)]
pub struct CratesInCratesDirectory;

/// The emits of `CratesInCratesDirectory` for workspace member `i`.
pub open spec fn crates_in_emits(g: &PackageGraph, i: int) -> Seq<EmitView> {
    let comps = components_of(g.packages@[i].workspace_path->Some_0@, '/');
    if comps.len() == 0 || comps[0] != "crates"@ {
        Seq::<EmitView>::empty()
    } else {
        let name_part: Seq<EmitView> = if comps.len() < 2 || comps[1]
            != g.packages@[i].name@ {
            seq![
                EmitView {
                    kind: pkg_kind(g, i),
                    level: LintLevel::Error,
                    message:
                        "crates in the `crates/` directory must be in a directory with the same name as the crate"@,
                },
            ]
        } else {
            Seq::<EmitView>::empty()
        };
        let nest_part: Seq<EmitView> = if comps.len() > 2 {
            seq![
                EmitView {
                    kind: pkg_kind(g, i),
                    level: LintLevel::Error,
                    message:
                        "crates in the `crates/` directory must be in a flat directory structure, no nesting"@,
                },
            ]
        } else {
            Seq::<EmitView>::empty()
        };
        name_part + nest_part
    }
}

impl CratesInCratesDirectory {
    /// The rule's name.
    pub fn name(&self) -> (r: &'static str)
        ensures
            r@ == "crates-in-crates-directory"@,
    {
        "crates-in-crates-directory"
    }

    /// Reports a `crates/` package in a mis-named or nested directory.
    pub fn run(&self, ctx: &PackageContext<'_>) -> (r: Vec<Emit>)
        requires
            ctx.wf(),
        ensures
            emits_view(r@) == crates_in_emits(&ctx.base.graph, ctx.package as int),
    {
        let comps = split_components(ctx.workspace_path().as_str(), '/');
        let mut r: Vec<Emit> = Vec::new();
        proof {
            if comps@.len() > 0 {
                assert(strs_view(comps@)[0] == comps@[0]@);
            }
            if comps@.len() > 1 {
                assert(strs_view(comps@)[1] == comps@[1]@);
            }
        }
        if comps.len() == 0 || !str_eq(comps[0].as_str(), "crates") {
            proof {
                assert(emits_view(r@) =~= crates_in_emits(&ctx.base.graph, ctx.package as int));
            }
            return r;
        }
        if comps.len() < 2 || !str_eq(comps[1].as_str(), ctx.metadata().name.as_str()) {
            r.push(
                Emit {
                    kind: make_pkg_kind(ctx),
                    level: LintLevel::Error,
                    message: String::from_str(
                        "crates in the `crates/` directory must be in a directory with the same name as the crate",
                    ),
                },
            );
        }
        if comps.len() > 2 {
            r.push(
                Emit {
                    kind: make_pkg_kind(ctx),
                    level: LintLevel::Error,
                    message: String::from_str(
                        "crates in the `crates/` directory must be in a flat directory structure, no nesting",
                    ),
                },
            );
        }
        proof {
            assert(emits_view(r@) =~= crates_in_emits(&ctx.base.graph, ctx.package as int));
        }
        r
    }
}

/// Restricts publishable packages to the single public registry.
#[derive(Clone, Copy, Debug, PartialEq, Eq)]
pub struct OnlyPublishToCratesIo;

/// Whether a publish policy is acceptable: never published, or exactly the
/// public registry.
pub open spec fn publish_ok(p: &PublishPolicy) -> bool {
    match p {
        PublishPolicy::Unrestricted => false,
        PublishPolicy::Registries(v) => v@.len() == 0 || (v@.len() == 1 && v@[0]@
            == "crates-io"@),
    }
}

/// The message `OnlyPublishToCratesIo` reports.
pub open spec fn only_publish_message() -> Seq<char> {
    "published package should only be publishable to crates.io. If you intend to publish this package, ensure the 'publish' field in the package's Cargo.toml is 'publish = [\"crates-io\"]. Otherwise set the 'publish' field to 'publish = false'."@
}

/// The emits of `OnlyPublishToCratesIo` for workspace member `i`.
pub open spec fn only_publish_emits(g: &PackageGraph, i: int) -> Seq<EmitView> {
    if publish_ok(&g.packages@[i].publish) {
        Seq::<EmitView>::empty()
    } else {
        seq![
            EmitView {
                kind: pkg_kind(g, i),
                level: LintLevel::Error,
                message: only_publish_message(),
            },
        ]
    }
}

impl OnlyPublishToCratesIo {
    /// The rule's name.
    pub fn name(&self) -> (r: &'static str)
        ensures
            r@ == "only-publish-to-crates-io"@,
    {
        "only-publish-to-crates-io"
    }

    /// Reports a package whose publish policy is neither "never" nor
    /// exactly the public registry.
    pub fn run(&self, ctx: &PackageContext<'_>) -> (r: Vec<Emit>)
        requires
            ctx.wf(),
        ensures
            emits_view(r@) == only_publish_emits(&ctx.base.graph, ctx.package as int),
    {
        let is_ok: bool = match &ctx.metadata().publish {
            PublishPolicy::Unrestricted => false,
            PublishPolicy::Registries(v) => {
                if v.len() == 0 {
                    true
                } else if v.len() == 1 {
                    proof {
                        assert(v@[0] == v@.index(0));
                    }
                    str_eq(v[0].as_str(), "crates-io")
                } else {
                    false
                }
            },
        };
        let mut r: Vec<Emit> = Vec::new();
        if !is_ok {
            r.push(
                Emit {
                    kind: make_pkg_kind(ctx),
                    level: LintLevel::Error,
                    message: String::from_str(
                        "published package should only be publishable to crates.io. If you intend to publish this package, ensure the 'publish' field in the package's Cargo.toml is 'publish = [\"crates-io\"]. Otherwise set the 'publish' field to 'publish = false'.",
                    ),
                },
            );
        }
        proof {
            assert(emits_view(r@) =~= only_publish_emits(&ctx.base.graph, ctx.package as int));
        }
        r
    }
}

/// Requires a package with build dependencies to have a build script.
#[derive(Clone, Copy, Debug, PartialEq, Eq)]
pub struct IrrelevantBuildDeps;

/// Whether node `i` has a direct build-kind dependency edge.
pub open spec fn has_build_dep(g: &PackageGraph, i: int) -> bool {
    exists|e: int|
        0 <= e < g.edges@.len() && (#[trigger] g.edges@[e]).from == i && g.edges@[e].kind
            is Build
}

/// The emits of `IrrelevantBuildDeps` for workspace member `i`.
pub open spec fn irrelevant_build_emits(g: &PackageGraph, i: int) -> Seq<EmitView> {
    if has_build_dep(g, i) && !g.packages@[i].has_build_script {
        seq![
            EmitView {
                kind: pkg_kind(g, i),
                level: LintLevel::Error,
                message: "build dependencies but no build script"@,
            },
        ]
    } else {
        Seq::<EmitView>::empty()
    }
}

impl IrrelevantBuildDeps {
    /// The rule's name.
    pub fn name(&self) -> (r: &'static str)
        ensures
            r@ == "irrelevant-build-deps"@,
    {
        "irrelevant-build-deps"
    }

    /// Reports build dependencies declared without a build script.
    pub fn run(&self, ctx: &PackageContext<'_>) -> (r: Vec<Emit>)
        requires
            ctx.wf(),
        ensures
            emits_view(r@) == irrelevant_build_emits(&ctx.base.graph, ctx.package as int),
    {
        let g = ctx.package_graph();
        let ne = g.edges.len();
        let mut found = false;
        let mut e: usize = 0;
        while e < ne
            invariant
                ne == g.edges@.len(),
                e <= ne,
                found == (exists|k: int|
                    0 <= k < e && (#[trigger] g.edges@[k]).from == ctx.package as int
                        && g.edges@[k].kind is Build),
            decreases ne - e,
        {
            if g.edges[e].from == ctx.package && matches!(g.edges[e].kind, DepKind::Build) {
                found = true;
            }
            e += 1;
        }
        let mut r: Vec<Emit> = Vec::new();
        if found && !ctx.metadata().has_build_script {
            r.push(
                Emit {
                    kind: make_pkg_kind(ctx),
                    level: LintLevel::Error,
                    message: String::from_str("build dependencies but no build script"),
                },
            );
        }
        proof {
            assert(found == has_build_dep(&ctx.base.graph, ctx.package as int));
            assert(emits_view(r@) =~= irrelevant_build_emits(&ctx.base.graph, ctx.package as int));
        }
        r
    }
}

/// Forbids published packages from depending on never-published packages.
#[derive(Clone, Copy, Debug, PartialEq, Eq)]
pub struct PublishedPackagesDontDependOnUnpublishedPackages;

/// The emit reported when published package `i` depends on unpublished
/// package `j`.
pub open spec fn pub_unpub_emit(g: &PackageGraph, i: int, j: int) -> EmitView {
    EmitView {
        kind: pkg_kind(g, i),
        level: LintLevel::Error,
        message: "published package can't depend on unpublished package '"@
            + g.packages@[j].name@ + "'"@,
    }
}

/// The unpublished direct dependencies of `i` among the first `n` nodes,
/// each yielding one emit.
pub open spec fn pub_unpub_upto(g: &PackageGraph, i: int, n: int) -> Seq<EmitView>
    decreases n,
{
    if n <= 0 {
        Seq::<EmitView>::empty()
    } else {
        let prev = pub_unpub_upto(g, i, n - 1);
        if g.direct_edge(i, n - 1) && g.packages@[n - 1].publish.spec_is_never() {
            prev.push(pub_unpub_emit(g, i, n - 1))
        } else {
            prev
        }
    }
}

/// The emits of `PublishedPackagesDontDependOnUnpublishedPackages` for
/// workspace member `i`.
pub open spec fn pub_unpub_emits(g: &PackageGraph, i: int) -> Seq<EmitView> {
    if g.packages@[i].publish.spec_is_never() {
        Seq::<EmitView>::empty()
    } else {
        pub_unpub_upto(g, i, g.packages@.len() as int)
    }
}

impl PublishedPackagesDontDependOnUnpublishedPackages {
    /// The rule's name.
    pub fn name(&self) -> (r: &'static str)
        ensures
            r@ == "published-packages-dont-depend-on-unpublished-packages"@,
    {
        "published-packages-dont-depend-on-unpublished-packages"
    }

    /// Reports each never-published direct dependency of a publishable
    /// package.
    pub fn run(&self, ctx: &PackageContext<'_>) -> (r: Vec<Emit>)
        requires
            ctx.wf(),
        ensures
            emits_view(r@) == pub_unpub_emits(&ctx.base.graph, ctx.package as int),
    {
        let g = ctx.package_graph();
        let mut r: Vec<Emit> = Vec::new();
        if ctx.metadata().publish.is_never() {
            proof {
                assert(emits_view(r@) =~= pub_unpub_emits(&ctx.base.graph, ctx.package as int));
            }
            return r;
        }
        let np = g.packages.len();
        let mut j: usize = 0;
        while j < np
            invariant
                ctx.wf(),
                g == &ctx.base.graph,
                np == g.packages@.len(),
                j <= np,
                emits_view(r@) == pub_unpub_upto(g, ctx.package as int, j as int),
            decreases np - j,
        {
            if g.has_direct_edge(ctx.package, j) && g.packages[j].publish.is_never() {
                let mut msg = String::from_str(
                    "published package can't depend on unpublished package '",
                );
                msg.append(g.packages[j].name.as_str());
                msg.append("'");
                r.push(Emit { kind: make_pkg_kind(ctx), level: LintLevel::Error, message: msg });
            }
            j += 1;
            proof {
                assert(emits_view(r@) =~= pub_unpub_upto(g, ctx.package as int, j as int));
            }
        }
        r
    }
}

/// Requires never-published packages to use unconstrained (path-style)
/// requirements for their first-party dependencies; each dependency is
/// judged once, by the requirement on its first link.
#[derive(Clone, Copy, Debug, PartialEq, Eq)]
pub struct UnpublishedPackagesOnlyUsePathDependencies;

/// The index of the first edge from `i` to `j` among the first `n` edges,
/// or `-1` when none links them.
pub open spec fn first_edge_upto(g: &PackageGraph, i: int, j: int, n: int) -> int
    decreases n,
{
    if n <= 0 {
        -1
    } else if first_edge_upto(g, i, j, n - 1) >= 0 {
        first_edge_upto(g, i, j, n - 1)
    } else if g.edges@[n - 1].from == i && g.edges@[n - 1].to == j {
        n - 1
    } else {
        -1
    }
}

/// The index of the first edge from `i` to `j`, or `-1`.
pub open spec fn first_edge(g: &PackageGraph, i: int, j: int) -> int {
    first_edge_upto(g, i, j, g.edges@.len() as int)
}

/// `first_edge_upto` finds the lowest-index edge between the endpoints, and
/// finds one exactly when a direct edge exists among the first `n`.
pub proof fn lemma_first_edge_upto(g: &PackageGraph, i: int, j: int, n: int)
    requires
        0 <= n,
    ensures
        -1 <= first_edge_upto(g, i, j, n) < n || n == 0,
        first_edge_upto(g, i, j, n) >= 0 ==> {
            let e = first_edge_upto(g, i, j, n);
            g.edges@[e].from == i && g.edges@[e].to == j
        },
        (first_edge_upto(g, i, j, n) == -1) == (forall|e: int|
            0 <= e < n ==> !((#[trigger] g.edges@[e]).from == i && g.edges@[e].to == j)),
    decreases n,
{
    if n > 0 {
        lemma_first_edge_upto(g, i, j, n - 1);
    }
}

/// A dependency link from `i` to `j` counts as constrained when the
/// requirement written on its first edge is not the unconstrained `*`.
pub open spec fn link_req(g: &PackageGraph, i: int, j: int) -> Seq<char> {
    g.edges@[first_edge(g, i, j)].req@
}

/// Whether unpublished package `i` is reported for dependency node `j`: a
/// direct link to a workspace member with a constrained requirement.
pub open spec fn unpub_version_flagged(g: &PackageGraph, i: int, j: int) -> bool {
    g.in_workspace(j) && g.direct_edge(i, j) && link_req(g, i, j) != "*"@
}

/// The emit reported when unpublished package `i` constrains its
/// first-party dependency on node `j`.
pub open spec fn unpub_version_emit(g: &PackageGraph, i: int, j: int) -> EmitView {
    EmitView {
        kind: pkg_kind(g, i),
        level: LintLevel::Error,
        message: "unpublished package specifies a version of first-party dependency '"@
            + g.packages@[j].name@ + "' ("@ + link_req(g, i, j)
            + "); unpublished packages should only use path dependencies for first-party packages."@,
    }
}

/// The offending first-party dependencies of `i` among the first `n` nodes,
/// each yielding one emit.
pub open spec fn unpub_version_upto(g: &PackageGraph, i: int, n: int) -> Seq<EmitView>
    decreases n,
{
    if n <= 0 {
        Seq::<EmitView>::empty()
    } else {
        let prev = unpub_version_upto(g, i, n - 1);
        if unpub_version_flagged(g, i, n - 1) {
            prev.push(unpub_version_emit(g, i, n - 1))
        } else {
            prev
        }
    }
}

/// The emits of `UnpublishedPackagesOnlyUsePathDependencies` for workspace
/// member `i`: one per constrained first-party dependency.
pub open spec fn unpub_version_emits(g: &PackageGraph, i: int) -> Seq<EmitView> {
    if g.packages@[i].publish.spec_is_never() {
        unpub_version_upto(g, i, g.packages@.len() as int)
    } else {
        Seq::<EmitView>::empty()
    }
}

/// Finds the first edge from `i` to `j`.
fn find_first_edge(g: &PackageGraph, i: usize, j: usize) -> (r: Option<usize>)
    ensures
        match r {
            Some(e) => first_edge(g, i as int, j as int) == e as int && (e as int)
                < g.edges@.len(),
            None => first_edge(g, i as int, j as int) == -1,
        },
{
    let ne = g.edges.len();
    let mut k: usize = 0;
    while k < ne
        invariant
            ne == g.edges@.len(),
            k <= ne,
            first_edge_upto(g, i as int, j as int, k as int) == -1,
        decreases ne - k,
    {
        if g.edges[k].from == i && g.edges[k].to == j {
            proof {
                assert(first_edge_upto(g, i as int, j as int, k + 1) == k as int);
                lemma_first_edge_persists(g, i as int, j as int, k + 1, ne as int);
            }
            return Some(k);
        }
        k += 1;
    }
    None
}

/// Once found, the first edge does not change as more edges are scanned.
proof fn lemma_first_edge_persists(g: &PackageGraph, i: int, j: int, n: int, m: int)
    requires
        0 <= n <= m,
        first_edge_upto(g, i, j, n) >= 0,
    ensures
        first_edge_upto(g, i, j, m) == first_edge_upto(g, i, j, n),
    decreases m,
{
    if m > n {
        lemma_first_edge_persists(g, i, j, n, m - 1);
    }
}

impl UnpublishedPackagesOnlyUsePathDependencies {
    /// Builds the rule.
    pub fn new() -> (r: Self)
        ensures
            r == UnpublishedPackagesOnlyUsePathDependencies,
    {
        UnpublishedPackagesOnlyUsePathDependencies
    }

    /// The rule's name.
    pub fn name(&self) -> (r: &'static str)
        ensures
            r@ == "unpublished-packages-only-use-path-dependencies"@,
    {
        "unpublished-packages-only-use-path-dependencies"
    }

    /// Reports each constrained first-party dependency of a never-published
    /// package, once per dependency, with the requirement written on its
    /// first link.
    pub fn run(&self, ctx: &PackageContext<'_>) -> (r: Vec<Emit>)
        requires
            ctx.wf(),
        ensures
            emits_view(r@) == unpub_version_emits(&ctx.base.graph, ctx.package as int),
    {
        let g = ctx.package_graph();
        let mut r: Vec<Emit> = Vec::new();
        if !ctx.metadata().publish.is_never() {
            proof {
                assert(emits_view(r@) =~= unpub_version_emits(
                    &ctx.base.graph,
                    ctx.package as int,
                ));
            }
            return r;
        }
        let np = g.packages.len();
        let mut j: usize = 0;
        while j < np
            invariant
                ctx.wf(),
                g == &ctx.base.graph,
                np == g.packages@.len(),
                j <= np,
                emits_view(r@) == unpub_version_upto(g, ctx.package as int, j as int),
            decreases np - j,
        {
            proof {
                lemma_first_edge_upto(g, ctx.package as int, j as int, g.edges@.len() as int);
            }
            if g.packages[j].workspace_path.is_some() {
                match find_first_edge(g, ctx.package, j) {
                    Some(e) => {
                        proof {
                            assert(g.direct_edge(ctx.package as int, j as int)) by {
                                assert(g.edges@[e as int].from == ctx.package as int
                                    && g.edges@[e as int].to == j as int);
                            }
                        }
                        if !str_eq(g.edges[e].req.as_str(), "*") {
                            let mut msg = String::from_str(
                                "unpublished package specifies a version of first-party dependency '",
                            );
                            msg.append(g.packages[j].name.as_str());
                            msg.append("' (");
                            msg.append(g.edges[e].req.as_str());
                            msg.append(
                                "); unpublished packages should only use path dependencies for first-party packages.",
                            );
                            r.push(
                                Emit {
                                    kind: make_pkg_kind(ctx),
                                    level: LintLevel::Error,
                                    message: msg,
                                },
                            );
                        }
                    },
                    None => {
                        proof {
                            assert(!g.direct_edge(ctx.package as int, j as int)) by {
                                if g.direct_edge(ctx.package as int, j as int) {
                                    let e = choose|e: int|
                                        0 <= e < g.edges@.len() && (
                                        #[trigger] g.edges@[e]).from == ctx.package as int
                                            && g.edges@[e].to == j as int;
                                }
                            }
                        }
                    },
                }
            }
            j += 1;
            proof {
                assert(emits_view(r@) =~= unpub_version_upto(g, ctx.package as int, j as int));
            }
        }
        r
    }
}

impl Default for UnpublishedPackagesOnlyUsePathDependencies {
    /// The rule takes no configuration.
    fn default() -> (r: Self)
        ensures
            r == UnpublishedPackagesOnlyUsePathDependencies,
    {
        UnpublishedPackagesOnlyUsePathDependencies::new()
    }
}

/// Configuration of `EnforcedAttributes`: the attribute values every
/// workspace crate must declare.
#[derive(Clone, Debug, PartialEq, Eq)]
pub struct EnforcedAttributesConfig {
    /// When set, the exact author list every workspace crate must have.
    pub authors: Option<Vec<String>>,
    /// When set, the exact license every workspace crate must declare.
    pub license: Option<String>,
}

/// Enforces declared attributes on workspace crates.
#[derive(Clone, Debug, PartialEq, Eq)]
pub struct EnforcedAttributes {
    pub config: EnforcedAttributesConfig,
}

/// The emits of `EnforcedAttributes` for workspace member `i`.
pub open spec fn enforced_emits(
    g: &PackageGraph,
    cfg: &EnforcedAttributesConfig,
    i: int,
) -> Seq<EmitView> {
    let authors_part: Seq<EmitView> = match &cfg.authors {
        Some(a) => if strs_view(g.packages@[i].authors@) != strs_view(a@) {
            seq![
                EmitView {
                    kind: pkg_kind(g, i),
                    level: LintLevel::Error,
                    message: "invalid authors (expected "@ + join_with(strs_view(a@), ", "@)
                        + ")"@,
                },
            ]
        } else {
            Seq::<EmitView>::empty()
        },
        None => Seq::<EmitView>::empty(),
    };
    let license_part: Seq<EmitView> = match &cfg.license {
        Some(l) => if !(g.packages@[i].license is Some && g.packages@[i].license->Some_0@
            == l@) {
            seq![
                EmitView {
                    kind: pkg_kind(g, i),
                    level: LintLevel::Error,
                    message: "invalid license (expected "@ + l@ + ")"@,
                },
            ]
        } else {
            Seq::<EmitView>::empty()
        },
        None => Seq::<EmitView>::empty(),
    };
    authors_part + license_part
}

impl EnforcedAttributes {
    /// Builds the rule from its configuration.
    pub fn new(config: EnforcedAttributesConfig) -> (r: Self)
        ensures
            r.config == config,
    {
        EnforcedAttributes { config }
    }

    /// The rule's name.
    pub fn name(&self) -> (r: &'static str)
        ensures
            r@ == "enforced-attributes"@,
    {
        "enforced-attributes"
    }

    /// Reports mismatching authors or license declarations.
    pub fn run(&self, ctx: &PackageContext<'_>) -> (r: Vec<Emit>)
        requires
            ctx.wf(),
        ensures
            emits_view(r@) == enforced_emits(&ctx.base.graph, &self.config, ctx.package as int),
    {
        let md = ctx.metadata();
        let mut r: Vec<Emit> = Vec::new();
        match &self.config.authors {
            Some(a) => {
                if !crate::strutil::string_vecs_eq(&md.authors, a) {
                    let mut msg = String::from_str("invalid authors (expected ");
                    let joined = crate::strutil::join_strings(a, ", ");
                    msg.append(joined.as_str());
                    msg.append(")");
                    r.push(
                        Emit { kind: make_pkg_kind(ctx), level: LintLevel::Error, message: msg },
                    );
                }
            },
            None => {},
        }
        match &self.config.license {
            Some(l) => {
                let license_ok: bool = match &md.license {
                    Some(ml) => str_eq(ml.as_str(), l.as_str()),
                    None => false,
                };
                if !license_ok {
                    let mut msg = String::from_str("invalid license (expected ");
                    msg.append(l.as_str());
                    msg.append(")");
                    r.push(
                        Emit { kind: make_pkg_kind(ctx), level: LintLevel::Error, message: msg },
                    );
                }
            },
            None => {},
        }
        proof {
            assert(emits_view(r@) =~= enforced_emits(
                &ctx.base.graph,
                &self.config,
                ctx.package as int,
            ));
        }
        r
    }
}

/// Checks naming conventions in crate names, workspace paths and build
/// target names.
#[derive(Clone, Copy, Debug, PartialEq, Eq)]
pub struct CrateNamesPaths;

/// The file stem of a path: the file name without its extension, or `None`
/// for an empty file name.
pub open spec fn stem_opt(path: Seq<char>) -> Option<Seq<char>> {
    let nm = crate::license::file_name_of(path);
    if nm.len() == 0 {
        None
    } else {
        let d = crate::strutil::last_index_of(nm, '.');
        if d >= 1 {
            Some(nm.subrange(0, d))
        } else {
            Some(nm)
        }
    }
}

/// Extracts the file stem of `path`.
pub fn stem_str(path: &str) -> (r: Option<String>)
    ensures
        match r {
            Some(s) => stem_opt(path@) == Some(s@),
            None => stem_opt(path@) is None,
        },
{
    let n = path.unicode_len();
    proof {
        crate::strutil::lemma_last_index_of_bounds(path@, '/');
    }
    let start: usize = match crate::strutil::rfind_char(path, '/') {
        Some(i) => i + 1,
        None => 0,
    };
    let name = path.substring_char(start, n);
    proof {
        assert(name@ == crate::license::file_name_of(path@));
    }
    let nn = name.unicode_len();
    if nn == 0 {
        return None;
    }
    proof {
        crate::strutil::lemma_last_index_of_bounds(name@, '.');
    }
    match crate::strutil::rfind_char(name, '.') {
        Some(d) => {
            if d >= 1 {
                Some(name.substring_char(0, d).to_owned())
            } else {
                Some(name.to_owned())
            }
        },
        None => Some(name.to_owned()),
    }
}

/// The emit for a build target of `i` whose name holds an underscore not
/// explained by its file stem.
pub open spec fn target_emit(g: &PackageGraph, i: int, t: int) -> EmitView {
    EmitView {
        kind: pkg_kind(g, i),
        level: LintLevel::Error,
        message: "build target '"@ + g.packages@[i].build_targets@[t].name@
            + "' contains '_' (use '-' instead)"@,
    }
}

/// Whether build target `t` of `i` is reported: its name holds `_` and is
/// not simply the file stem of its own path.
pub open spec fn target_flagged(g: &PackageGraph, i: int, t: int) -> bool {
    let bt = g.packages@[i].build_targets@[t];
    bt.name@.contains('_') && stem_opt(bt.path@) != Some(bt.name@)
}

/// The flagged build targets among the first `n` of `i`, each yielding one
/// emit.
pub open spec fn targets_upto(g: &PackageGraph, i: int, n: int) -> Seq<EmitView>
    decreases n,
{
    if n <= 0 {
        Seq::<EmitView>::empty()
    } else {
        let prev = targets_upto(g, i, n - 1);
        if target_flagged(g, i, n - 1) {
            prev.push(target_emit(g, i, n - 1))
        } else {
            prev
        }
    }
}

/// The emits of `CrateNamesPaths` for workspace member `i`.
pub open spec fn crate_names_emits(g: &PackageGraph, i: int) -> Seq<EmitView> {
    let name_part: Seq<EmitView> = if g.packages@[i].name@.contains('_') {
        seq![
            EmitView {
                kind: pkg_kind(g, i),
                level: LintLevel::Error,
                message: "crate name contains '_' (use '-' instead)"@,
            },
        ]
    } else {
        Seq::<EmitView>::empty()
    };
    let path_part: Seq<EmitView> = if g.packages@[i].workspace_path->Some_0@.contains('_') {
        seq![
            EmitView {
                kind: pkg_kind(g, i),
                level: LintLevel::Error,
                message: "workspace path contains '_' (use '-' instead)"@,
            },
        ]
    } else {
        Seq::<EmitView>::empty()
    };
    name_part + path_part + targets_upto(g, i, g.packages@[i].build_targets@.len() as int)
}

impl CrateNamesPaths {
    /// The rule's name.
    pub fn name(&self) -> (r: &'static str)
        ensures
            r@ == "crate-names-paths"@,
    {
        "crate-names-paths"
    }

    /// Reports underscores in crate names, workspace paths and explicit
    /// build target names.
    pub fn run(&self, ctx: &PackageContext<'_>) -> (r: Vec<Emit>)
        requires
            ctx.wf(),
        ensures
            emits_view(r@) == crate_names_emits(&ctx.base.graph, ctx.package as int),
    {
        let g = ctx.package_graph();
        let md = ctx.metadata();
        let mut r: Vec<Emit> = Vec::new();
        if str_contains_char(md.name.as_str(), '_') {
            r.push(
                Emit {
                    kind: make_pkg_kind(ctx),
                    level: LintLevel::Error,
                    message: String::from_str("crate name contains '_' (use '-' instead)"),
                },
            );
        }
        if str_contains_char(ctx.workspace_path().as_str(), '_') {
            r.push(
                Emit {
                    kind: make_pkg_kind(ctx),
                    level: LintLevel::Error,
                    message: String::from_str("workspace path contains '_' (use '-' instead)"),
                },
            );
        }
        let ghost head = emits_view(r@);
        let nt = md.build_targets.len();
        let mut t: usize = 0;
        proof {
            assert(head + targets_upto(g, ctx.package as int, 0) =~= head);
        }
        while t < nt
            invariant
                ctx.wf(),
                g == &ctx.base.graph,
                md == &ctx.base.graph.packages@[ctx.package as int],
                nt == md.build_targets@.len(),
                t <= nt,
                emits_view(r@) == head + targets_upto(g, ctx.package as int, t as int),
            decreases nt - t,
        {
            let bt = &md.build_targets[t];
            proof {
                assert(*bt == g.packages@[ctx.package as int].build_targets@[t as int]);
            }
            if str_contains_char(bt.name.as_str(), '_') {
                let flagged: bool = match stem_str(bt.path.as_str()) {
                    Some(s) => !str_eq(s.as_str(), bt.name.as_str()),
                    None => true,
                };
                proof {
                    assert(flagged == target_flagged(g, ctx.package as int, t as int));
                }
                if flagged {
                    let mut msg = String::from_str("build target '");
                    msg.append(bt.name.as_str());
                    msg.append("' contains '_' (use '-' instead)");
                    let em = Emit {
                        kind: make_pkg_kind(ctx),
                        level: LintLevel::Error,
                        message: msg,
                    };
                    let ghost emg = em;
                    let ghost oldr = r@;
                    r.push(em);
                    proof {
                        crate::message::lemma_emits_view_push(oldr, emg);
                        assert(emg@ =~~= target_emit(g, ctx.package as int, t as int));
                    }
                }
            }
            t += 1;
            proof {
                assert(emits_view(r@) =~~= head + targets_upto(g, ctx.package as int, t as int));
            }
        }
        proof {
            assert(emits_view(r@) =~= crate_names_emits(&ctx.base.graph, ctx.package as int));
        }
        r
    }
}

/// Policy for a banned dependency: banned everywhere, or banned only as a
/// direct dependency of workspace members.
#[derive(Clone, Copy, Debug, PartialEq, Eq, Structural)]
pub enum BannedDepType {
    /// Dependency is always banned.
    Always,
    /// Dependency is only banned as a direct dependency.
    Direct,
}

/// What to report for one banned name.
#[derive(Clone, Debug, PartialEq, Eq)]
pub struct BannedDepConfig {
    /// Message to print if this dependency is found.
    pub message: String,
    pub type_: BannedDepType,
}

/// The banned-dependency table: names with their policies.  Names are
/// expected to be distinct; a repeated name is shadowed by its first entry.
#[derive(Clone, Debug, PartialEq, Eq)]
pub struct BannedDepsConfig(pub Vec<(String, BannedDepConfig)>);

/// Bans certain crates from being used as dependencies.
#[derive(Clone, Debug, PartialEq, Eq)]
pub struct BannedDeps {
    pub config: BannedDepsConfig,
}

/// The first configuration entry for `name`, if any.
pub open spec fn find_banned(
    cfg: Seq<(String, BannedDepConfig)>,
    name: Seq<char>,
) -> Option<BannedDepConfig>
    decreases cfg.len(),
{
    if cfg.len() == 0 {
        None
    } else if cfg[0].0@ == name {
        Some(cfg[0].1)
    } else {
        find_banned(cfg.drop_first(), name)
    }
}

/// Looks up the banned-dependency entry for `name`.
fn find_banned_exec<'a>(
    cfg: &'a Vec<(String, BannedDepConfig)>,
    name: &str,
) -> (r: Option<&'a BannedDepConfig>)
    ensures
        match r {
            Some(c) => find_banned(cfg@, name@) == Some(*c),
            None => find_banned(cfg@, name@) is None,
        },
{
    let n = cfg.len();
    let mut k: usize = 0;
    proof {
        assert(cfg@.subrange(0, n as int) =~= cfg@);
    }
    while k < n
        invariant
            n == cfg@.len(),
            k <= n,
            find_banned(cfg@, name@) == find_banned(cfg@.subrange(k as int, n as int), name@),
        decreases n - k,
    {
        proof {
            let rest = cfg@.subrange(k as int, n as int);
            assert(rest[0] == cfg@[k as int]);
            assert(rest.drop_first() =~= cfg@.subrange(k + 1, n as int));
        }
        if str_eq(cfg[k].0.as_str(), name) {
            return Some(&cfg[k].1);
        }
        k += 1;
    }
    None
}

/// The project-level emit for an always-banned package `i`.
pub open spec fn always_emit(g: &PackageGraph, i: int, msg: Seq<char>) -> EmitView {
    EmitView {
        kind: KindView::Project,
        level: LintLevel::Error,
        message: "banned project dependency '"@ + g.packages@[i].name@ + "': "@ + msg,
    }
}

/// The package-level emit for dependent `w` of a direct-banned package `i`.
pub open spec fn direct_emit(g: &PackageGraph, i: int, w: int, msg: Seq<char>) -> EmitView {
    EmitView {
        kind: pkg_kind(g, w),
        level: LintLevel::Error,
        message: "banned direct dependency '"@ + g.packages@[i].name@ + "': "@ + msg,
    }
}

/// One emit per direct dependent of a direct-banned package `i`.
pub open spec fn banned_direct_emits(
    g: &PackageGraph,
    i: int,
    msg: Seq<char>,
    hack: Option<String>,
) -> Seq<EmitView> {
    g.dependents(i, hack).map_values(|w: int| direct_emit(g, i, w, msg))
}

/// The emits the banned-dependency rule produces for package `i`.
pub open spec fn banned_emits_at(
    g: &PackageGraph,
    cfg: Seq<(String, BannedDepConfig)>,
    hack: Option<String>,
    i: int,
) -> Seq<EmitView> {
    match find_banned(cfg, g.packages@[i].name@) {
        None => Seq::<EmitView>::empty(),
        Some(c) => match c.type_ {
            BannedDepType::Always => seq![always_emit(g, i, c.message@)],
            BannedDepType::Direct => banned_direct_emits(g, i, c.message@, hack),
        },
    }
}

/// The emits for the first `n` packages, in node order.
pub open spec fn banned_run_upto(
    g: &PackageGraph,
    cfg: Seq<(String, BannedDepConfig)>,
    hack: Option<String>,
    n: int,
) -> Seq<EmitView>
    decreases n,
{
    if n <= 0 {
        Seq::<EmitView>::empty()
    } else {
        banned_run_upto(g, cfg, hack, n - 1) + banned_emits_at(g, cfg, hack, n - 1)
    }
}

impl BannedDeps {
    /// Builds the rule from its configuration.
    pub fn new(config: BannedDepsConfig) -> (r: Self)
        ensures
            r.config == config,
    {
        BannedDeps { config }
    }

    /// The rule's name.
    pub fn name(&self) -> (r: &'static str)
        ensures
            r@ == "banned-deps"@,
    {
        "banned-deps"
    }

    /// Reports every banned package in the graph: one project-level error
    /// for an always-banned name, and one package-level error per direct
    /// workspace dependent (the workspace-hack package excepted) for a
    /// direct-banned name.
    pub fn run(&self, ctx: &ProjectContext<'_>) -> (r: Vec<Emit>)
        requires
            ctx.base.wf(),
        ensures
            emits_view(r@) == banned_run_upto(
                &ctx.base.graph,
                self.config.0@,
                ctx.base.workspace_hack_name,
                ctx.base.graph.packages@.len() as int,
            ),
    {
        let g = ctx.package_graph();
        let hack = ctx.workspace_hack_name();
        let ghost cfg = self.config.0@;
        let np = g.packages.len();
        let mut r: Vec<Emit> = Vec::new();
        let mut i: usize = 0;
        while i < np
            invariant
                ctx.base.wf(),
                g == &ctx.base.graph,
                hack == &ctx.base.workspace_hack_name,
                cfg == self.config.0@,
                np == g.packages@.len(),
                i <= np,
                emits_view(r@) == banned_run_upto(g, cfg, *hack, i as int),
            decreases np - i,
        {
            match find_banned_exec(&self.config.0, g.packages[i].name.as_str()) {
                None => {
                    proof {
                        assert(emits_view(r@) =~= banned_run_upto(g, cfg, *hack, i + 1));
                    }
                },
                Some(c) => {
                    match c.type_ {
                        BannedDepType::Always => {
                            let mut msg = String::from_str("banned project dependency '");
                            msg.append(g.packages[i].name.as_str());
                            msg.append("': ");
                            msg.append(c.message.as_str());
                            let em = Emit {
                                kind: LintKind::Project,
                                level: LintLevel::Error,
                                message: msg,
                            };
                            let ghost emg = em;
                            let ghost oldr = r@;
                            r.push(em);
                            proof {
                                crate::message::lemma_emits_view_push(oldr, emg);
                                assert(emg@ =~~= always_emit(g, i as int, c.message@));
                                assert(emits_view(r@) =~~= banned_run_upto(g, cfg, *hack, i + 1));
                            }
                        },
                        BannedDepType::Direct => {
                            let deps = g.dependents_of(i, hack);
                            let ghost depsv = g.dependents(i as int, *hack);
                            let ghost demits = banned_direct_emits(g, i as int, c.message@, *hack);
                            proof {
                                crate::graph::lemma_dependents_upto_members(
                                    g,
                                    i as int,
                                    *hack,
                                    np as int,
                                );
                            }
                            let nd = deps.len();
                            let mut k: usize = 0;
                            let ghost pre = emits_view(r@);
                            proof {
                                assert(pre + demits.subrange(0, 0) =~= pre);
                            }
                            while k < nd
                                invariant
                                    ctx.base.wf(),
                                    g == &ctx.base.graph,
                                    np == g.packages@.len(),
                                    i < np,
                                    nd == deps@.len(),
                                    k <= nd,
                                    deps@.map_values(|x: usize| x as int) == depsv,
                                    forall|j: int| 0 <= j < nd ==> (#[trigger] deps@[j]) < np,
                                    forall|j: int|
                                        0 <= j < depsv.len() ==> g.is_dependent(
                                            #[trigger] depsv[j],
                                            i as int,
                                            *hack,
                                        ),
                                    demits == banned_direct_emits(g, i as int, c.message@, *hack),
                                    emits_view(r@) == pre + demits.subrange(0, k as int),
                                decreases nd - k,
                            {
                                let w = deps[k];
                                proof {
                                    assert(depsv[k as int] == w as int);
                                    assert(g.is_dependent(w as int, i as int, *hack));
                                }
                                let mut msg = String::from_str("banned direct dependency '");
                                msg.append(g.packages[i].name.as_str());
                                msg.append("': ");
                                msg.append(c.message.as_str());
                                let wpath: String = match &g.packages[w].workspace_path {
                                    Some(p) => p.clone(),
                                    None => {
                                        proof {
                                            assert(false);
                                        }
                                        String::new()
                                    },
                                };
                                let em = Emit {
                                    kind: LintKind::Package {
                                        name: g.packages[w].name.clone(),
                                        workspace_path: wpath,
                                    },
                                    level: LintLevel::Error,
                                    message: msg,
                                };
                                let ghost emg = em;
                                let ghost oldr = r@;
                                r.push(em);
                                k += 1;
                                proof {
                                    crate::message::lemma_emits_view_push(oldr, emg);
                                    assert(emg@ =~~= direct_emit(
                                        g,
                                        i as int,
                                        w as int,
                                        c.message@,
                                    ));
                                    assert(demits[k - 1] == direct_emit(
                                        g,
                                        i as int,
                                        depsv[k - 1],
                                        c.message@,
                                    ));
                                    assert(emits_view(r@) =~~= pre + demits.subrange(0, k as int));
                                }
                            }
                            proof {
                                assert(demits.subrange(0, nd as int) =~= demits);
                                assert(emits_view(r@) =~~= banned_run_upto(g, cfg, *hack, i + 1));
                            }
                        },
                    }
                },
            }
            i += 1;
        }
        r
    }
}

/// The direct dependencies of `i` among the first `n` nodes whose publish
/// policy is "never", in node order.
pub open spec fn unpub_dep_nodes_upto(g: &PackageGraph, i: int, n: int) -> Seq<int>
    decreases n,
{
    if n <= 0 {
        Seq::<int>::empty()
    } else {
        let prev = unpub_dep_nodes_upto(g, i, n - 1);
        if g.direct_edge(i, n - 1) && g.packages@[n - 1].publish.spec_is_never() {
            prev.push(n - 1)
        } else {
            prev
        }
    }
}

/// The emits of `pub_unpub_upto` map the unpublished dependencies one for
/// one, in node order.
proof fn lemma_pub_unpub_upto_shape(g: &PackageGraph, i: int, n: int)
    ensures
        pub_unpub_upto(g, i, n).len() == unpub_dep_nodes_upto(g, i, n).len(),
        forall|k: int|
            0 <= k < pub_unpub_upto(g, i, n).len() ==> #[trigger] pub_unpub_upto(g, i, n)[k]
                == pub_unpub_emit(g, i, unpub_dep_nodes_upto(g, i, n)[k]),
        forall|t: int|
            0 <= t < unpub_dep_nodes_upto(g, i, n).len() ==> {
                let j = #[trigger] unpub_dep_nodes_upto(g, i, n)[t];
                0 <= j < n && g.direct_edge(i, j) && g.packages@[j].publish.spec_is_never()
            },
        forall|j: int|
            0 <= j < n && g.direct_edge(i, j) && (
            #[trigger] g.packages@[j]).publish.spec_is_never() ==> unpub_dep_nodes_upto(
                g,
                i,
                n,
            ).contains(j),
    decreases n,
{
    if n > 0 {
        lemma_pub_unpub_upto_shape(g, i, n - 1);
        let prevn = unpub_dep_nodes_upto(g, i, n - 1);
        let curn = unpub_dep_nodes_upto(g, i, n);
        let preve = pub_unpub_upto(g, i, n - 1);
        let cure = pub_unpub_upto(g, i, n);
        assert forall|k: int| 0 <= k < cure.len() implies #[trigger] cure[k] == pub_unpub_emit(
            g,
            i,
            curn[k],
        ) by {
            if k < preve.len() {
                assert(cure[k] == preve[k]);
                assert(curn[k] == prevn[k]);
            }
        }
        assert forall|t: int| 0 <= t < curn.len() implies {
            let j = #[trigger] curn[t];
            0 <= j < n && g.direct_edge(i, j) && g.packages@[j].publish.spec_is_never()
        } by {
            if t < prevn.len() {
                assert(curn[t] == prevn[t]);
            }
        }
        assert forall|j: int|
            0 <= j < n && g.direct_edge(i, j) && (
            #[trigger] g.packages@[j]).publish.spec_is_never() implies curn.contains(j) by {
            if j < n - 1 {
                let t = choose|t: int| 0 <= t < prevn.len() && prevn[t] == j;
                assert(curn[t] == j);
            } else {
                assert(curn[curn.len() - 1] == j);
            }
        }
    }
}

/// Law: a publishable package yields exactly one package-level error per
/// direct dependency whose publish policy is "never", each naming that
/// dependency, and none otherwise.
pub proof fn lemma_published_unpublished_law(g: &PackageGraph, i: int)
    requires
        0 <= i < g.packages@.len(),
        !g.packages@[i].publish.spec_is_never(),
    ensures
        ({
            let nodes = unpub_dep_nodes_upto(g, i, g.packages@.len() as int);
            &&& pub_unpub_emits(g, i).len() == nodes.len()
            &&& forall|k: int|
                0 <= k < nodes.len() ==> #[trigger] pub_unpub_emits(g, i)[k] == pub_unpub_emit(
                    g,
                    i,
                    nodes[k],
                )
            &&& forall|j: int|
                0 <= j < g.packages@.len() && g.direct_edge(i, j) && (
                #[trigger] g.packages@[j]).publish.spec_is_never() ==> nodes.contains(j)
            &&& forall|t: int|
                0 <= t < nodes.len() ==> g.direct_edge(i, #[trigger] nodes[t])
                    && g.packages@[nodes[t]].publish.spec_is_never()
        }),
{
    lemma_pub_unpub_upto_shape(g, i, g.packages@.len() as int);
}

/// The dependency nodes of `i` among the first `n` that are flagged by the
/// unpublished-requirement rule, in node order.
pub open spec fn constrained_dep_nodes_upto(g: &PackageGraph, i: int, n: int) -> Seq<int>
    decreases n,
{
    if n <= 0 {
        Seq::<int>::empty()
    } else {
        let prev = constrained_dep_nodes_upto(g, i, n - 1);
        if unpub_version_flagged(g, i, n - 1) {
            prev.push(n - 1)
        } else {
            prev
        }
    }
}

/// The emits of `unpub_version_upto` map the constrained first-party
/// dependencies one for one, in node order.
proof fn lemma_unpub_version_upto_shape(g: &PackageGraph, i: int, n: int)
    ensures
        unpub_version_upto(g, i, n).len() == constrained_dep_nodes_upto(g, i, n).len(),
        forall|k: int|
            0 <= k < unpub_version_upto(g, i, n).len() ==> #[trigger] unpub_version_upto(
                g,
                i,
                n,
            )[k] == unpub_version_emit(g, i, constrained_dep_nodes_upto(g, i, n)[k]),
        forall|t: int|
            0 <= t < constrained_dep_nodes_upto(g, i, n).len() ==> {
                let j = #[trigger] constrained_dep_nodes_upto(g, i, n)[t];
                0 <= j < n && unpub_version_flagged(g, i, j)
            },
        forall|j: int|
            0 <= j < n && #[trigger] unpub_version_flagged(g, i, j)
                ==> constrained_dep_nodes_upto(g, i, n).contains(j),
    decreases n,
{
    if n > 0 {
        lemma_unpub_version_upto_shape(g, i, n - 1);
        let prevn = constrained_dep_nodes_upto(g, i, n - 1);
        let curn = constrained_dep_nodes_upto(g, i, n);
        let preve = unpub_version_upto(g, i, n - 1);
        let cure = unpub_version_upto(g, i, n);
        assert forall|k: int| 0 <= k < cure.len() implies #[trigger] cure[k] == unpub_version_emit(
            g,
            i,
            curn[k],
        ) by {
            if k < preve.len() {
                assert(cure[k] == preve[k]);
                assert(curn[k] == prevn[k]);
            }
        }
        assert forall|t: int| 0 <= t < curn.len() implies {
            let j = #[trigger] curn[t];
            0 <= j < n && unpub_version_flagged(g, i, j)
        } by {
            if t < prevn.len() {
                assert(curn[t] == prevn[t]);
            }
        }
        assert forall|j: int|
            0 <= j < n && #[trigger] unpub_version_flagged(g, i, j) implies curn.contains(j) by {
            if j < n - 1 {
                let t = choose|t: int| 0 <= t < prevn.len() && prevn[t] == j;
                assert(curn[t] == j);
            } else {
                assert(curn[curn.len() - 1] == j);
            }
        }
    }
}

/// Law: a never-published package yields exactly one error per direct
/// first-party dependency whose first link carries a requirement other than
/// the unconstrained `*`, and none for unconstrained dependencies.
pub proof fn lemma_unpublished_version_law(g: &PackageGraph, i: int)
    requires
        0 <= i < g.packages@.len(),
        g.packages@[i].publish.spec_is_never(),
    ensures
        ({
            let offending = constrained_dep_nodes_upto(g, i, g.packages@.len() as int);
            &&& unpub_version_emits(g, i).len() == offending.len()
            &&& forall|k: int|
                0 <= k < offending.len() ==> #[trigger] unpub_version_emits(g, i)[k]
                    == unpub_version_emit(g, i, offending[k])
            &&& forall|j: int|
                0 <= j < g.packages@.len() && #[trigger] unpub_version_flagged(g, i, j)
                    ==> offending.contains(j)
            &&& forall|t: int|
                0 <= t < offending.len() ==> unpub_version_flagged(
                    g,
                    i,
                    #[trigger] offending[t],
                )
        }),
{
    lemma_unpub_version_upto_shape(g, i, g.packages@.len() as int);
}

/// Configuration of `DirectDepDups`: third-party names allowed to appear in
/// several versions.
#[derive(Clone, Debug, PartialEq, Eq)]
pub struct DirectDepDupsConfig {
    pub allow: Vec<String>,
}

/// Forbids workspace packages from directly depending on more than one
/// distinct resolved version of the same third-party crate.
#[derive(Clone, Debug, PartialEq, Eq)]
pub struct DirectDepDups {
    pub config: DirectDepDupsConfig,
}

/// Whether node `j` is a third-party package some workspace member (other
/// than the workspace-hack package) directly depends on.
pub open spec fn dd_qualifies(g: &PackageGraph, hack: Option<String>, j: int) -> bool {
    &&& 0 <= j < g.packages@.len()
    &&& !g.in_workspace(j)
    &&& g.dependents(j, hack).len() > 0
}

/// The qualifying nodes named `name` among the first `n`, in node order.
pub open spec fn dd_nodes_upto(
    g: &PackageGraph,
    hack: Option<String>,
    name: Seq<char>,
    n: int,
) -> Seq<int>
    decreases n,
{
    if n <= 0 {
        Seq::<int>::empty()
    } else {
        let prev = dd_nodes_upto(g, hack, name, n - 1);
        if dd_qualifies(g, hack, n - 1) && g.packages@[n - 1].name@ == name {
            prev.push(n - 1)
        } else {
            prev
        }
    }
}

/// All qualifying nodes named `name`: one per directly-used version.
pub open spec fn dd_nodes(g: &PackageGraph, hack: Option<String>, name: Seq<char>) -> Seq<int> {
    dd_nodes_upto(g, hack, name, g.packages@.len() as int)
}

/// Whether `j` is the first qualifying node of its name.
pub open spec fn dd_is_first(g: &PackageGraph, hack: Option<String>, j: int) -> bool {
    dd_qualifies(g, hack, j) && dd_nodes_upto(g, hack, g.packages@[j].name@, j).len() == 0
}

/// The names of the direct dependents of node `t`.
pub open spec fn dep_names(g: &PackageGraph, t: int, hack: Option<String>) -> Seq<Seq<char>> {
    g.dependents(t, hack).map_values(|w: int| g.packages@[w].name@)
}

/// Whether `vs` already holds the same resolved version as `v`.
pub open spec fn versions_contain(vs: Seq<Version>, v: Version) -> bool {
    exists|t: int| 0 <= t < vs.len() && version_same(#[trigger] vs[t], v)
}

/// The distinct resolved versions among the first `k` nodes, in first
/// occurrence order.
pub open spec fn dd_versions(g: &PackageGraph, nodes: Seq<int>, k: int) -> Seq<Version>
    decreases k,
{
    if k <= 0 {
        Seq::<Version>::empty()
    } else {
        let prev = dd_versions(g, nodes, k - 1);
        let v = g.packages@[nodes[k - 1]].version;
        if versions_contain(prev, v) {
            prev
        } else {
            prev.push(v)
        }
    }
}

/// The dependent names of every node among the first `k` whose version is
/// `v`, in node order.
pub open spec fn version_dep_names(
    g: &PackageGraph,
    hack: Option<String>,
    nodes: Seq<int>,
    v: Version,
    k: int,
) -> Seq<Seq<char>>
    decreases k,
{
    if k <= 0 {
        Seq::<Seq<char>>::empty()
    } else {
        version_dep_names(g, hack, nodes, v, k - 1) + (if version_same(
            g.packages@[nodes[k - 1]].version,
            v,
        ) {
            dep_names(g, nodes[k - 1], hack)
        } else {
            Seq::<Seq<char>>::empty()
        })
    }
}

/// The report line of one distinct version: the version and every dependent
/// using it.
pub open spec fn dd_version_line(
    g: &PackageGraph,
    hack: Option<String>,
    nodes: Seq<int>,
    v: Version,
) -> Seq<char> {
    "  * "@ + version_chars(v) + " ("@ + join_with(
        version_dep_names(g, hack, nodes, v, nodes.len() as int),
        ", "@,
    ) + ")\n"@
}

/// The first `k` version lines of the report block.
pub open spec fn dd_block(
    g: &PackageGraph,
    hack: Option<String>,
    nodes: Seq<int>,
    vs: Seq<Version>,
    k: int,
) -> Seq<char>
    decreases k,
{
    if k <= 0 {
        Seq::<char>::empty()
    } else {
        dd_block(g, hack, nodes, vs, k - 1) + dd_version_line(g, hack, nodes, vs[k - 1])
    }
}

/// The message reported for a duplicated direct dependency `name`: one line
/// per distinct resolved version, each listing its dependents.
pub open spec fn dup_message(
    g: &PackageGraph,
    hack: Option<String>,
    name: Seq<char>,
    nodes: Seq<int>,
) -> Seq<char> {
    let vs = dd_versions(g, nodes, nodes.len() as int);
    "duplicate direct dependency '"@ + name + "':\n"@ + dd_block(
        g,
        hack,
        nodes,
        vs,
        vs.len() as int,
    )
}

/// The emits the duplicate-dependency rule produces at node `j`: one
/// project-level error when `j` is the first node of a non-allow-listed
/// name directly used in at least two distinct resolved versions.
pub open spec fn dd_emit_at(
    g: &PackageGraph,
    hack: Option<String>,
    allow: Seq<Seq<char>>,
    j: int,
) -> Seq<EmitView> {
    let name = g.packages@[j].name@;
    let nodes = dd_nodes(g, hack, name);
    if dd_is_first(g, hack, j) && !allow.contains(name) && dd_versions(
        g,
        nodes,
        nodes.len() as int,
    ).len() >= 2 {
        seq![
            EmitView {
                kind: KindView::Project,
                level: LintLevel::Error,
                message: dup_message(g, hack, name, nodes),
            },
        ]
    } else {
        Seq::<EmitView>::empty()
    }
}

/// The duplicate-dependency emits for the first `n` nodes.
pub open spec fn dd_run_upto(
    g: &PackageGraph,
    hack: Option<String>,
    allow: Seq<Seq<char>>,
    n: int,
) -> Seq<EmitView>
    decreases n,
{
    if n <= 0 {
        Seq::<EmitView>::empty()
    } else {
        dd_run_upto(g, hack, allow, n - 1) + dd_emit_at(g, hack, allow, n - 1)
    }
}

/// Runtime test for `dd_qualifies`.
fn dd_qualifies_exec(g: &PackageGraph, hack: &Option<String>, j: usize) -> (r: bool)
    requires
        j < g.packages@.len(),
    ensures
        r == dd_qualifies(g, *hack, j as int),
{
    if g.packages[j].workspace_path.is_some() {
        return false;
    }
    let deps = g.dependents_of(j, hack);
    deps.len() > 0
}

/// Collects the dependent names of node `t`.
fn dependent_names(g: &PackageGraph, t: usize, hack: &Option<String>) -> (r: Vec<String>)
    ensures
        strs_view(r@) == dep_names(g, t as int, *hack),
{
    let deps = g.dependents_of(t, hack);
    let ghost depsv = g.dependents(t as int, *hack);
    let nd = deps.len();
    let mut r: Vec<String> = Vec::new();
    let mut k: usize = 0;
    while k < nd
        invariant
            nd == deps@.len(),
            k <= nd,
            deps@.map_values(|x: usize| x as int) == depsv,
            forall|j: int| 0 <= j < nd ==> (#[trigger] deps@[j]) < g.packages@.len(),
            strs_view(r@) == dep_names(g, t as int, *hack).subrange(0, k as int),
        decreases nd - k,
    {
        let w = deps[k];
        let nm = g.packages[w].name.clone();
        let ghost nmg = nm;
        let ghost oldr = r@;
        r.push(nm);
        k += 1;
        proof {
            crate::strutil::lemma_strs_view_push(oldr, nmg);
            assert(depsv[k - 1] == w as int);
            assert(dep_names(g, t as int, *hack)[k - 1] == g.packages@[w as int].name@);
            assert(strs_view(r@) =~= dep_names(g, t as int, *hack).subrange(0, k as int));
        }
    }
    proof {
        assert(dep_names(g, t as int, *hack).subrange(0, nd as int) =~= dep_names(
            g,
            t as int,
            *hack,
        ));
    }
    r
}

impl DirectDepDups {
    /// Builds the rule from its configuration.
    pub fn new(config: DirectDepDupsConfig) -> (r: Self)
        ensures
            r.config == config,
    {
        DirectDepDups { config }
    }

    /// The rule's name.
    pub fn name(&self) -> (r: &'static str)
        ensures
            r@ == "direct-dep-dups"@,
    {
        "direct-dep-dups"
    }

    /// Reports each third-party name outside the allow-list that workspace
    /// members directly depend on in more than one distinct resolved
    /// version: one project-level error listing every distinct version with
    /// its dependents.
    #[verifier::rlimit(100)]
    #[verifier::spinoff_prover]
    pub fn run(&self, ctx: &ProjectContext<'_>) -> (r: Vec<Emit>)
        requires
            ctx.base.wf(),
        ensures
            emits_view(r@) == dd_run_upto(
                &ctx.base.graph,
                ctx.base.workspace_hack_name,
                strs_view(self.config.allow@),
                ctx.base.graph.packages@.len() as int,
            ),
    {
        let g = ctx.package_graph();
        let hack = ctx.workspace_hack_name();
        let ghost allow = strs_view(self.config.allow@);
        let np = g.packages.len();
        let mut r: Vec<Emit> = Vec::new();
        let mut j: usize = 0;
        while j < np
            invariant
                ctx.base.wf(),
                g == &ctx.base.graph,
                hack == &ctx.base.workspace_hack_name,
                allow == strs_view(self.config.allow@),
                np == g.packages@.len(),
                j <= np,
                emits_view(r@) == dd_run_upto(g, *hack, allow, j as int),
            decreases np - j,
        {
            let ghost jj = j as int;
            let ghost name = g.packages@[jj].name@;
            let mut emit_here = false;
            if dd_qualifies_exec(g, hack, j) {
                // Is this the first qualifying node of its name?
                let mut first = true;
                let mut k: usize = 0;
                while k < j
                    invariant
                        ctx.base.wf(),
                        g == &ctx.base.graph,
                        np == g.packages@.len(),
                        j < np,
                        k <= j,
                        name == g.packages@[j as int].name@,
                        first == (dd_nodes_upto(g, *hack, name, k as int).len() == 0),
                    decreases j - k,
                {
                    if dd_qualifies_exec(g, hack, k) && str_eq(
                        g.packages[k].name.as_str(),
                        g.packages[j].name.as_str(),
                    ) {
                        first = false;
                    }
                    k += 1;
                }
                if first && !strings_contain(&self.config.allow, g.packages[j].name.as_str()) {
                    // Gather every qualifying node of this name.
                    let mut nodes: Vec<usize> = Vec::new();
                    let mut k2: usize = 0;
                    while k2 < np
                        invariant
                            ctx.base.wf(),
                            g == &ctx.base.graph,
                            np == g.packages@.len(),
                            j < np,
                            k2 <= np,
                            name == g.packages@[j as int].name@,
                            nodes@.map_values(|x: usize| x as int) == dd_nodes_upto(
                                g,
                                *hack,
                                name,
                                k2 as int,
                            ),
                            forall|t: int| 0 <= t < nodes@.len() ==> (#[trigger] nodes@[t]) < np,
                        decreases np - k2,
                    {
                        if dd_qualifies_exec(g, hack, k2) && str_eq(
                            g.packages[k2].name.as_str(),
                            g.packages[j].name.as_str(),
                        ) {
                            nodes.push(k2);
                        }
                        k2 += 1;
                        proof {
                            assert(nodes@.map_values(|x: usize| x as int) =~= dd_nodes_upto(
                                g,
                                *hack,
                                name,
                                k2 as int,
                            ));
                        }
                    }
                    let ghost nodesv = dd_nodes(g, *hack, name);
                    // The distinct resolved versions, by representative
                    // node, in first-occurrence order.
                    let nn = nodes.len();
                    let mut reps: Vec<usize> = Vec::new();
                    let mut t: usize = 0;
                    while t < nn
                        invariant
                            ctx.base.wf(),
                            g == &ctx.base.graph,
                            np == g.packages@.len(),
                            nn == nodes@.len(),
                            t <= nn,
                            nodes@.map_values(|x: usize| x as int) == nodesv,
                            forall|u: int| 0 <= u < nodes@.len() ==> (#[trigger] nodes@[u]) < np,
                            forall|u: int| 0 <= u < reps@.len() ==> (#[trigger] reps@[u]) < np,
                            reps@.map_values(|x: usize| g.packages@[x as int].version)
                                == dd_versions(g, nodesv, t as int),
                        decreases nn - t,
                    {
                        let nd = nodes[t];
                        let ghost vs = dd_versions(g, nodesv, t as int);
                        let ghost v = g.packages@[nd as int].version;
                        proof {
                            assert(nodesv[t as int] == nd as int);
                        }
                        let nr = reps.len();
                        let mut contained = false;
                        let mut u: usize = 0;
                        while u < nr
                            invariant
                                ctx.base.wf(),
                                g == &ctx.base.graph,
                                np == g.packages@.len(),
                                nd < np,
                                v == g.packages@[nd as int].version,
                                nr == reps@.len(),
                                u <= nr,
                                forall|w: int|
                                    0 <= w < reps@.len() ==> (#[trigger] reps@[w]) < np,
                                vs == reps@.map_values(
                                    |x: usize| g.packages@[x as int].version,
                                ),
                                contained == (exists|w: int|
                                    0 <= w < u && version_same(#[trigger] vs[w], v)),
                            decreases nr - u,
                        {
                            proof {
                                assert(vs[u as int] == g.packages@[reps@[u as int] as int].version);
                            }
                            if g.packages[reps[u]].version.same(&g.packages[nd].version) {
                                contained = true;
                            }
                            u += 1;
                        }
                        proof {
                            assert(contained == versions_contain(vs, v)) by {
                                if versions_contain(vs, v) {
                                    let w = choose|w: int|
                                        0 <= w < vs.len() && version_same(#[trigger] vs[w], v);
                                    assert(0 <= w < nr);
                                }
                            }
                        }
                        if !contained {
                            let ghost oldreps = reps@;
                            reps.push(nd);
                            proof {
                                crate::strutil::lemma_mapped_push(
                                    oldreps,
                                    nd,
                                    |x: usize| g.packages@[x as int].version,
                                );
                                assert(reps@.map_values(|x: usize| g.packages@[x as int].version)
                                    =~= dd_versions(g, nodesv, t + 1));
                            }
                        }
                        t += 1;
                    }
                    let ghost vsv = dd_versions(g, nodesv, nodesv.len() as int);
                    if reps.len() >= 2 {
                        emit_here = true;
                        let mut msg = String::from_str("duplicate direct dependency '");
                        msg.append(g.packages[j].name.as_str());
                        msg.append("':\n");
                        let ghost msghead = msg@;
                        let nv = reps.len();
                        let mut ri: usize = 0;
                        proof {
                            assert(msg@ =~= msghead + dd_block(g, *hack, nodesv, vsv, 0));
                        }
                        while ri < nv
                            invariant
                                ctx.base.wf(),
                                g == &ctx.base.graph,
                                np == g.packages@.len(),
                                nn == nodes@.len(),
                                nv == reps@.len(),
                                ri <= nv,
                                nodes@.map_values(|x: usize| x as int) == nodesv,
                                forall|u: int| 0 <= u < nodes@.len() ==> (#[trigger] nodes@[u]) < np,
                                forall|u: int| 0 <= u < reps@.len() ==> (#[trigger] reps@[u]) < np,
                                vsv == reps@.map_values(|x: usize| g.packages@[x as int].version),
                                msg@ == msghead + dd_block(g, *hack, nodesv, vsv, ri as int),
                            decreases nv - ri,
                        {
                            let rep = reps[ri];
                            proof {
                                assert(vsv[ri as int] == g.packages@[rep as int].version);
                            }
                            msg.append("  * ");
                            let ver = g.packages[rep].version.render();
                            msg.append(ver.as_str());
                            msg.append(" (");
                            // Gather the dependents of every node with this
                            // resolved version.
                            let mut names: Vec<String> = Vec::new();
                            let mut t2: usize = 0;
                            proof {
                                assert(strs_view(names@) =~= version_dep_names(
                                    g,
                                    *hack,
                                    nodesv,
                                    vsv[ri as int],
                                    0,
                                ));
                            }
                            while t2 < nn
                                invariant
                                    ctx.base.wf(),
                                    g == &ctx.base.graph,
                                    np == g.packages@.len(),
                                    nn == nodes@.len(),
                                    t2 <= nn,
                                    ri < nv,
                                    nv == reps@.len(),
                                    rep < np,
                                    rep == reps@[ri as int],
                                    nodes@.map_values(|x: usize| x as int) == nodesv,
                                    forall|u: int|
                                        0 <= u < nodes@.len() ==> (#[trigger] nodes@[u]) < np,
                                    vsv == reps@.map_values(
                                        |x: usize| g.packages@[x as int].version,
                                    ),
                                    strs_view(names@) == version_dep_names(
                                        g,
                                        *hack,
                                        nodesv,
                                        vsv[ri as int],
                                        t2 as int,
                                    ),
                                decreases nn - t2,
                            {
                                let nd = nodes[t2];
                                proof {
                                    assert(nodesv[t2 as int] == nd as int);
                                    assert(vsv[ri as int] == g.packages@[rep as int].version);
                                }
                                if g.packages[nd].version.same(&g.packages[rep].version) {
                                    let mut dn = dependent_names(g, nd, hack);
                                    let ghost oldnames = names@;
                                    let ghost dnv = dn@;
                                    names.append(&mut dn);
                                    proof {
                                        crate::strutil::lemma_strs_view_concat(oldnames, dnv);
                                    }
                                }
                                t2 += 1;
                                proof {
                                    assert(strs_view(names@) =~= version_dep_names(
                                        g,
                                        *hack,
                                        nodesv,
                                        vsv[ri as int],
                                        t2 as int,
                                    ));
                                }
                            }
                            let joined = crate::strutil::join_strings(&names, ", ");
                            msg.append(joined.as_str());
                            msg.append(")\n");
                            ri += 1;
                            proof {
                                assert(msg@ =~= msghead + dd_block(
                                    g,
                                    *hack,
                                    nodesv,
                                    vsv,
                                    ri as int,
                                ));
                            }
                        }
                        proof {
                            assert(msg@ =~= dup_message(g, *hack, name, nodesv));
                        }
                        let em = Emit {
                            kind: LintKind::Project,
                            level: LintLevel::Error,
                            message: msg,
                        };
                        let ghost emg = em;
                        let ghost oldr = r@;
                        r.push(em);
                        proof {
                            crate::message::lemma_emits_view_push(oldr, emg);
                            assert(emg@ =~~= dd_emit_at(g, *hack, allow, jj)[0]);
                            assert(emits_view(r@) =~~= dd_run_upto(g, *hack, allow, jj + 1));
                        }
                    }
                }
            }
            if !emit_here {
                proof {
                    assert(dd_emit_at(g, *hack, allow, jj) =~= Seq::<EmitView>::empty());
                    assert(emits_view(r@) =~= dd_run_upto(g, *hack, allow, jj + 1));
                }
            }
            j += 1;
        }
        r
    }
}

/// Law: an allow-listed name is never reported by the duplicate-dependency
/// rule, however many versions of it are in use.
pub proof fn lemma_dup_allowlisted(
    g: &PackageGraph,
    hack: Option<String>,
    allow: Seq<Seq<char>>,
    j: int,
)
    requires
        0 <= j < g.packages@.len(),
        allow.contains(g.packages@[j].name@),
    ensures
        dd_emit_at(g, hack, allow, j) == Seq::<EmitView>::empty(),
{
}

/// Law: a third-party name directly used in fewer than two distinct
/// resolved versions is not reported, however many nodes carry it.
pub proof fn lemma_dup_single_version(
    g: &PackageGraph,
    hack: Option<String>,
    allow: Seq<Seq<char>>,
    j: int,
)
    requires
        0 <= j < g.packages@.len(),
        ({
            let nodes = dd_nodes(g, hack, g.packages@[j].name@);
            dd_versions(g, nodes, nodes.len() as int).len() < 2
        }),
    ensures
        dd_emit_at(g, hack, allow, j) == Seq::<EmitView>::empty(),
{
}

/// With all versions the same among the first `k` nodes, at most one
/// distinct version is collected, and each collected version is some
/// node's.
proof fn lemma_dd_versions_bound(g: &PackageGraph, nodes: Seq<int>, k: int)
    requires
        forall|a: int, b: int|
            0 <= a < nodes.len() && 0 <= b < nodes.len() ==> version_same(
                g.packages@[#[trigger] nodes[a]].version,
                g.packages@[#[trigger] nodes[b]].version,
            ),
        k <= nodes.len(),
    ensures
        dd_versions(g, nodes, k).len() <= 1,
        forall|t: int|
            0 <= t < dd_versions(g, nodes, k).len() ==> exists|a: int|
                0 <= a < k && version_same(
                    #[trigger] dd_versions(g, nodes, k)[t],
                    g.packages@[nodes[a]].version,
                ),
    decreases k,
{
    if k > 0 {
        lemma_dd_versions_bound(g, nodes, k - 1);
        let prev = dd_versions(g, nodes, k - 1);
        let v = g.packages@[nodes[k - 1]].version;
        if !versions_contain(prev, v) {
            assert(prev.len() == 0) by {
                if prev.len() > 0 {
                    let a = choose|a: int|
                        0 <= a < k - 1 && version_same(
                            #[trigger] prev[0],
                            g.packages@[nodes[a]].version,
                        );
                    assert(version_same(g.packages@[nodes[a]].version, v));
                    assert(version_same(prev[0], v));
                }
            }
            assert forall|t: int| 0 <= t < dd_versions(g, nodes, k).len() implies exists|a: int|
                0 <= a < k && version_same(
                    #[trigger] dd_versions(g, nodes, k)[t],
                    g.packages@[nodes[a]].version,
                ) by {
                assert(version_same(dd_versions(g, nodes, k)[t], g.packages@[nodes[k - 1]].version));
            }
        } else {
            assert forall|t: int| 0 <= t < dd_versions(g, nodes, k).len() implies exists|a: int|
                0 <= a < k && version_same(
                    #[trigger] dd_versions(g, nodes, k)[t],
                    g.packages@[nodes[a]].version,
                ) by {
                let a = choose|a: int|
                    0 <= a < k - 1 && version_same(
                        #[trigger] prev[t],
                        g.packages@[nodes[a]].version,
                    );
                assert(0 <= a < k && version_same(
                    dd_versions(g, nodes, k)[t],
                    g.packages@[nodes[a]].version,
                ));
            }
        }
    }
}

/// Law: a name whose qualifying nodes all resolve to the same version is
/// not reported — even when several graph nodes (say, a registry copy and a
/// git copy) carry that one version.
pub proof fn lemma_dup_equal_versions_not_reported(
    g: &PackageGraph,
    hack: Option<String>,
    allow: Seq<Seq<char>>,
    j: int,
)
    requires
        0 <= j < g.packages@.len(),
        forall|a: int, b: int|
            0 <= a < dd_nodes(g, hack, g.packages@[j].name@).len() && 0 <= b < dd_nodes(
                g,
                hack,
                g.packages@[j].name@,
            ).len() ==> version_same(
                g.packages@[#[trigger] dd_nodes(g, hack, g.packages@[j].name@)[a]].version,
                g.packages@[#[trigger] dd_nodes(g, hack, g.packages@[j].name@)[b]].version,
            ),
    ensures
        dd_emit_at(g, hack, allow, j) == Seq::<EmitView>::empty(),
{
    let nodes = dd_nodes(g, hack, g.packages@[j].name@);
    lemma_dd_versions_bound(g, nodes, nodes.len() as int);
}

/// Law: a non-allow-listed third-party name directly used in two or more
/// distinct resolved versions is reported exactly once, as a project-level
/// error whose message is the block listing every distinct version with its
/// dependents.
pub proof fn lemma_dup_reported(
    g: &PackageGraph,
    hack: Option<String>,
    allow: Seq<Seq<char>>,
    j: int,
)
    requires
        dd_is_first(g, hack, j),
        !allow.contains(g.packages@[j].name@),
        ({
            let nodes = dd_nodes(g, hack, g.packages@[j].name@);
            dd_versions(g, nodes, nodes.len() as int).len() >= 2
        }),
    ensures
        dd_emit_at(g, hack, allow, j).len() == 1,
        dd_emit_at(g, hack, allow, j)[0].kind is Project,
        dd_emit_at(g, hack, allow, j)[0].level is Error,
        dd_emit_at(g, hack, allow, j)[0].message == dup_message(
            g,
            hack,
            g.packages@[j].name@,
            dd_nodes(g, hack, g.packages@[j].name@),
        ),
{
}

/// The report block holds every version line of its first `k` versions.
proof fn lemma_dd_block_contains_lines(
    g: &PackageGraph,
    hack: Option<String>,
    nodes: Seq<int>,
    vs: Seq<Version>,
    k: int,
    t: int,
)
    requires
        0 <= t < k <= vs.len(),
    ensures
        crate::strutil::contains_seq(
            dd_block(g, hack, nodes, vs, k),
            dd_version_line(g, hack, nodes, vs[t]),
        ),
    decreases k,
{
    let line = dd_version_line(g, hack, nodes, vs[k - 1]);
    if t == k - 1 {
        crate::strutil::lemma_contains_seq_self(line);
        crate::strutil::lemma_contains_seq_right(dd_block(g, hack, nodes, vs, k - 1), line, line);
    } else {
        lemma_dd_block_contains_lines(g, hack, nodes, vs, k - 1, t);
        crate::strutil::lemma_contains_seq_left(
            dd_block(g, hack, nodes, vs, k - 1),
            line,
            dd_version_line(g, hack, nodes, vs[t]),
        );
    }
}

/// Law: the duplicate-dependency message names every distinct directly-used
/// version of the dependency, each with its full line of dependents, and
/// the dependency's own name.
pub proof fn lemma_dup_message_names_versions(
    g: &PackageGraph,
    hack: Option<String>,
    name: Seq<char>,
    nodes: Seq<int>,
)
    ensures
        forall|t: int|
            0 <= t < dd_versions(g, nodes, nodes.len() as int).len()
                ==> crate::strutil::contains_seq(
                dup_message(g, hack, name, nodes),
                dd_version_line(
                    g,
                    hack,
                    nodes,
                    #[trigger] dd_versions(g, nodes, nodes.len() as int)[t],
                ),
            ),
        crate::strutil::contains_seq(dup_message(g, hack, name, nodes), name),
{
    let vs = dd_versions(g, nodes, nodes.len() as int);
    let head = "duplicate direct dependency '"@ + name + "':\n"@;
    let block = dd_block(g, hack, nodes, vs, vs.len() as int);
    assert forall|t: int| 0 <= t < vs.len() implies crate::strutil::contains_seq(
        dup_message(g, hack, name, nodes),
        dd_version_line(g, hack, nodes, #[trigger] vs[t]),
    ) by {
        lemma_dd_block_contains_lines(g, hack, nodes, vs, vs.len() as int, t);
        crate::strutil::lemma_contains_seq_right(
            head,
            block,
            dd_version_line(g, hack, nodes, vs[t]),
        );
        assert(dup_message(g, hack, name, nodes) =~= head + block);
    }
    let p = "duplicate direct dependency '"@;
    assert(head.subrange(p.len() as int, p.len() + name.len() as int) =~= name);
    crate::strutil::lemma_contains_seq_left(head, block, name);
    assert(dup_message(g, hack, name, nodes) =~= head + block);
}

/// The nodes of `dd_nodes_upto` are exactly the qualifying nodes of the
/// name below `n`, in node order.
pub proof fn lemma_dd_nodes_members(
    g: &PackageGraph,
    hack: Option<String>,
    name: Seq<char>,
    n: int,
)
    ensures
        forall|t: int|
            0 <= t < dd_nodes_upto(g, hack, name, n).len() ==> {
                let j = #[trigger] dd_nodes_upto(g, hack, name, n)[t];
                0 <= j < n && dd_qualifies(g, hack, j) && g.packages@[j].name@ == name
            },
        forall|j: int|
            0 <= j < n && dd_qualifies(g, hack, j) && (#[trigger] g.packages@[j]).name@ == name
                ==> dd_nodes_upto(g, hack, name, n).contains(j),
    decreases n,
{
    if n > 0 {
        lemma_dd_nodes_members(g, hack, name, n - 1);
        let prev = dd_nodes_upto(g, hack, name, n - 1);
        let cur = dd_nodes_upto(g, hack, name, n);
        assert forall|t: int| 0 <= t < cur.len() implies {
            let j = #[trigger] cur[t];
            0 <= j < n && dd_qualifies(g, hack, j) && g.packages@[j].name@ == name
        } by {
            if t < prev.len() {
                assert(cur[t] == prev[t]);
            }
        }
        assert forall|j: int|
            0 <= j < n && dd_qualifies(g, hack, j) && (#[trigger] g.packages@[j]).name@
                == name implies cur.contains(j) by {
            if j < n - 1 {
                let t = choose|t: int| 0 <= t < prev.len() && prev[t] == j;
                assert(cur[t] == j);
            } else {
                assert(cur[cur.len() - 1] == j);
            }
        }
    }
}

/// Forbids two workspace packages from directly depending on the same git
/// repository pinned to different commits.
#[derive(Clone, Copy, Debug, PartialEq, Eq)]
pub struct DirectDuplicateGitDependencies;

/// The git source of node `j`: repository and resolved commit hash.
pub open spec fn git_src(g: &PackageGraph, j: int) -> Option<(Seq<char>, Seq<char>)> {
    match g.packages@[j].source {
        crate::graph::PackageSource::Git { repository, resolved } => Some(
            (repository@, resolved@),
        ),
        _ => None,
    }
}

/// Whether node `j` is a third-party git dependency some workspace member
/// (other than the workspace-hack package) directly depends on.
pub open spec fn gg_qualifies(g: &PackageGraph, hack: Option<String>, j: int) -> bool {
    &&& 0 <= j < g.packages@.len()
    &&& !g.in_workspace(j)
    &&& git_src(g, j) is Some
    &&& g.dependents(j, hack).len() > 0
}

/// The qualifying nodes of repository `repo` among the first `n`.
pub open spec fn gg_nodes_upto(
    g: &PackageGraph,
    hack: Option<String>,
    repo: Seq<char>,
    n: int,
) -> Seq<int>
    decreases n,
{
    if n <= 0 {
        Seq::<int>::empty()
    } else {
        let prev = gg_nodes_upto(g, hack, repo, n - 1);
        if gg_qualifies(g, hack, n - 1) && git_src(g, n - 1)->Some_0.0 == repo {
            prev.push(n - 1)
        } else {
            prev
        }
    }
}

/// All qualifying nodes of repository `repo`.
pub open spec fn gg_nodes(g: &PackageGraph, hack: Option<String>, repo: Seq<char>) -> Seq<int> {
    gg_nodes_upto(g, hack, repo, g.packages@.len() as int)
}

/// Whether `j` is the first qualifying node of its repository.
pub open spec fn gg_is_first(g: &PackageGraph, hack: Option<String>, j: int) -> bool {
    gg_qualifies(g, hack, j) && gg_nodes_upto(g, hack, git_src(g, j)->Some_0.0, j).len() == 0
}

/// The distinct resolved hashes among the first `k` nodes, in first
/// occurrence order.
pub open spec fn gg_hashes(g: &PackageGraph, nodes: Seq<int>, k: int) -> Seq<Seq<char>>
    decreases k,
{
    if k <= 0 {
        Seq::<Seq<char>>::empty()
    } else {
        let prev = gg_hashes(g, nodes, k - 1);
        let h = git_src(g, nodes[k - 1])->Some_0.1;
        if prev.contains(h) {
            prev
        } else {
            prev.push(h)
        }
    }
}

/// The report lines for the first `m` dependents of node `j`.
pub open spec fn gg_pair_lines(g: &PackageGraph, j: int, hack: Option<String>, m: int) -> Seq<char>
    decreases m,
{
    if m <= 0 {
        Seq::<char>::empty()
    } else {
        gg_pair_lines(g, j, hack, m - 1) + "    * "@
            + g.packages@[g.dependents(j, hack)[m - 1]].name@ + " -> "@ + g.packages@[j].name@
            + "\n"@
    }
}

/// The pair lines of every node among the first `k` whose hash is `h`.
pub open spec fn gg_hash_pairs(
    g: &PackageGraph,
    hack: Option<String>,
    nodes: Seq<int>,
    h: Seq<char>,
    k: int,
) -> Seq<char>
    decreases k,
{
    if k <= 0 {
        Seq::<char>::empty()
    } else {
        gg_hash_pairs(g, hack, nodes, h, k - 1) + if git_src(g, nodes[k - 1])->Some_0.1 == h {
            gg_pair_lines(g, nodes[k - 1], hack, g.dependents(nodes[k - 1], hack).len() as int)
        } else {
            Seq::<char>::empty()
        }
    }
}

/// The report block of one resolved hash.
pub open spec fn gg_hash_block(
    g: &PackageGraph,
    hack: Option<String>,
    nodes: Seq<int>,
    h: Seq<char>,
) -> Seq<char> {
    "  * "@ + h + ":\n"@ + gg_hash_pairs(g, hack, nodes, h, nodes.len() as int)
}

/// The report blocks of the first `k` hashes.
pub open spec fn gg_blocks(
    g: &PackageGraph,
    hack: Option<String>,
    nodes: Seq<int>,
    hs: Seq<Seq<char>>,
    k: int,
) -> Seq<char>
    decreases k,
{
    if k <= 0 {
        Seq::<char>::empty()
    } else {
        gg_blocks(g, hack, nodes, hs, k - 1) + gg_hash_block(g, hack, nodes, hs[k - 1])
    }
}

/// The message reported for a repository resolved to several commits.
pub open spec fn gg_message(
    g: &PackageGraph,
    hack: Option<String>,
    repo: Seq<char>,
    nodes: Seq<int>,
) -> Seq<char> {
    let hs = gg_hashes(g, nodes, nodes.len() as int);
    "duplicate git dependency on repository '"@ + repo + "':\n"@ + gg_blocks(
        g,
        hack,
        nodes,
        hs,
        hs.len() as int,
    )
}

/// The emits the duplicate-git-dependency rule produces at node `j`.
pub open spec fn gg_emit_at(g: &PackageGraph, hack: Option<String>, j: int) -> Seq<EmitView> {
    let repo = git_src(g, j)->Some_0.0;
    let nodes = gg_nodes(g, hack, repo);
    if gg_is_first(g, hack, j) && gg_hashes(g, nodes, nodes.len() as int).len() >= 2 {
        seq![
            EmitView {
                kind: KindView::Project,
                level: LintLevel::Error,
                message: gg_message(g, hack, repo, nodes),
            },
        ]
    } else {
        Seq::<EmitView>::empty()
    }
}

/// The duplicate-git-dependency emits for the first `n` nodes.
pub open spec fn gg_run_upto(g: &PackageGraph, hack: Option<String>, n: int) -> Seq<EmitView>
    decreases n,
{
    if n <= 0 {
        Seq::<EmitView>::empty()
    } else {
        gg_run_upto(g, hack, n - 1) + gg_emit_at(g, hack, n - 1)
    }
}

/// The git source of node `j`, if any.
fn git_src_exec<'a>(g: &'a PackageGraph, j: usize) -> (r: Option<(&'a String, &'a String)>)
    requires
        j < g.packages@.len(),
    ensures
        match r {
            Some(p) => git_src(g, j as int) == Some((p.0@, p.1@)),
            None => git_src(g, j as int) is None,
        },
{
    match &g.packages[j].source {
        crate::graph::PackageSource::Git { repository, resolved } => Some((repository, resolved)),
        _ => None,
    }
}

/// Runtime test for `gg_qualifies`.
fn gg_qualifies_exec(g: &PackageGraph, hack: &Option<String>, j: usize) -> (r: bool)
    requires
        j < g.packages@.len(),
    ensures
        r == gg_qualifies(g, *hack, j as int),
{
    if g.packages[j].workspace_path.is_some() {
        return false;
    }
    if git_src_exec(g, j).is_none() {
        return false;
    }
    let deps = g.dependents_of(j, hack);
    deps.len() > 0
}

impl DirectDuplicateGitDependencies {
    /// The rule's name.
    pub fn name(&self) -> (r: &'static str)
        ensures
            r@ == "direct-duplicate-git-dependencies"@,
    {
        "direct-duplicate-git-dependencies"
    }

    /// Reports each git repository that workspace members directly depend
    /// on at more than one resolved commit: one project-level error
    /// enumerating every hash with its dependent/dependency pairs.
    #[verifier::rlimit(100)]
    #[verifier::spinoff_prover]
    pub fn run(&self, ctx: &ProjectContext<'_>) -> (r: Vec<Emit>)
        requires
            ctx.base.wf(),
        ensures
            emits_view(r@) == gg_run_upto(
                &ctx.base.graph,
                ctx.base.workspace_hack_name,
                ctx.base.graph.packages@.len() as int,
            ),
    {
        let g = ctx.package_graph();
        let hack = ctx.workspace_hack_name();
        let np = g.packages.len();
        let mut r: Vec<Emit> = Vec::new();
        let mut j: usize = 0;
        while j < np
            invariant
                ctx.base.wf(),
                g == &ctx.base.graph,
                hack == &ctx.base.workspace_hack_name,
                np == g.packages@.len(),
                j <= np,
                emits_view(r@) == gg_run_upto(g, *hack, j as int),
            decreases np - j,
        {
            let ghost jj = j as int;
            let mut emit_here = false;
            if gg_qualifies_exec(g, hack, j) {
                let repo: String = match git_src_exec(g, j) {
                    Some(p) => p.0.clone(),
                    None => {
                        proof {
                            assert(false);
                        }
                        String::new()
                    },
                };
                let ghost repov = git_src(g, jj)->Some_0.0;
                proof {
                    assert(repo@ == repov);
                }
                // Is this the first qualifying node of its repository?
                let mut first = true;
                let mut k: usize = 0;
                while k < j
                    invariant
                        ctx.base.wf(),
                        g == &ctx.base.graph,
                        np == g.packages@.len(),
                        j < np,
                        k <= j,
                        repo@ == repov,
                        first == (gg_nodes_upto(g, *hack, repov, k as int).len() == 0),
                    decreases j - k,
                {
                    if gg_qualifies_exec(g, hack, k) {
                        let krepo = match git_src_exec(g, k) {
                            Some(p) => p.0,
                            None => {
                                proof {
                                    assert(false);
                                }
                                &g.packages[k].name
                            },
                        };
                        if str_eq(krepo.as_str(), repo.as_str()) {
                            first = false;
                        }
                    }
                    k += 1;
                }
                if first {
                    // Gather every qualifying node of this repository.
                    let mut nodes: Vec<usize> = Vec::new();
                    let mut k2: usize = 0;
                    while k2 < np
                        invariant
                            ctx.base.wf(),
                            g == &ctx.base.graph,
                            np == g.packages@.len(),
                            k2 <= np,
                            repo@ == repov,
                            nodes@.map_values(|x: usize| x as int) == gg_nodes_upto(
                                g,
                                *hack,
                                repov,
                                k2 as int,
                            ),
                            forall|t: int| 0 <= t < nodes@.len() ==> (#[trigger] nodes@[t]) < np,
                        decreases np - k2,
                    {
                        if gg_qualifies_exec(g, hack, k2) {
                            let krepo = match git_src_exec(g, k2) {
                                Some(p) => p.0,
                                None => {
                                    proof {
                                        assert(false);
                                    }
                                    &g.packages[k2].name
                                },
                            };
                            if str_eq(krepo.as_str(), repo.as_str()) {
                                nodes.push(k2);
                            }
                        }
                        k2 += 1;
                        proof {
                            assert(nodes@.map_values(|x: usize| x as int) =~= gg_nodes_upto(
                                g,
                                *hack,
                                repov,
                                k2 as int,
                            ));
                        }
                    }
                    let ghost nodesv = gg_nodes(g, *hack, repov);
                    proof {
                        lemma_gg_nodes_members(g, *hack, repov, np as int);
                    }
                    // The distinct hashes, in first-occurrence order.
                    let nn = nodes.len();
                    let mut hashes: Vec<String> = Vec::new();
                    let mut t: usize = 0;
                    while t < nn
                        invariant
                            ctx.base.wf(),
                            g == &ctx.base.graph,
                            np == g.packages@.len(),
                            nn == nodes@.len(),
                            t <= nn,
                            nodes@.map_values(|x: usize| x as int) == nodesv,
                            forall|u: int| 0 <= u < nodes@.len() ==> (#[trigger] nodes@[u]) < np,
                            strs_view(hashes@) == gg_hashes(g, nodesv, t as int),
                        decreases nn - t,
                    {
                        let nd = nodes[t];
                        proof {
                            assert(nodesv[t as int] == nd as int);
                            assert(gg_qualifies(g, *hack, nd as int));
                        }
                        let h = match git_src_exec(g, nd) {
                            Some(p) => p.1,
                            None => {
                                proof {
                                    assert(false);
                                }
                                &g.packages[nd].name
                            },
                        };
                        if !strings_contain(&hashes, h.as_str()) {
                            let hc = h.clone();
                            let ghost hcg = hc;
                            let ghost oldh = hashes@;
                            hashes.push(hc);
                            proof {
                                crate::strutil::lemma_strs_view_push(oldh, hcg);
                            }
                        }
                        t += 1;
                        proof {
                            assert(strs_view(hashes@) =~= gg_hashes(g, nodesv, t as int));
                        }
                    }
                    proof {
                        assert(strs_view(hashes@) == gg_hashes(g, nodesv, nodesv.len() as int));
                    }
                    if hashes.len() >= 2 {
                        emit_here = true;
                        let mut msg = String::from_str(
                            "duplicate git dependency on repository '",
                        );
                        msg.append(repo.as_str());
                        msg.append("':\n");
                        let ghost msghead = msg@;
                        let ghost hashesv = strs_view(hashes@);
                        let nh = hashes.len();
                        let mut hi: usize = 0;
                        proof {
                            assert(msg@ =~= msghead + gg_blocks(g, *hack, nodesv, hashesv, 0));
                        }
                        while hi < nh
                            invariant
                                ctx.base.wf(),
                                g == &ctx.base.graph,
                                np == g.packages@.len(),
                                nh == hashes@.len(),
                                hi <= nh,
                                nn == nodes@.len(),
                                nodes@.map_values(|x: usize| x as int) == nodesv,
                                forall|u: int|
                                    0 <= u < nodes@.len() ==> (#[trigger] nodes@[u]) < np,
                                forall|u: int|
                                    0 <= u < nodesv.len() ==> gg_qualifies(
                                        g,
                                        *hack,
                                        #[trigger] nodesv[u],
                                    ),
                                hashesv == strs_view(hashes@),
                                msg@ == msghead + gg_blocks(g, *hack, nodesv, hashesv, hi as int),
                            decreases nh - hi,
                        {
                            msg.append("  * ");
                            msg.append(hashes[hi].as_str());
                            msg.append(":\n");
                            let ghost h = hashesv[hi as int];
                            let ghost pairhead = msg@;
                            proof {
                                assert(hashes@[hi as int]@ == h);
                                assert(msg@ =~= pairhead + gg_hash_pairs(g, *hack, nodesv, h, 0));
                            }
                            let mut t2: usize = 0;
                            while t2 < nn
                                invariant
                                    ctx.base.wf(),
                                    g == &ctx.base.graph,
                                    np == g.packages@.len(),
                                    nn == nodes@.len(),
                                    t2 <= nn,
                                    nh == hashes@.len(),
                                    hi < nh,
                                    nodes@.map_values(|x: usize| x as int) == nodesv,
                                    forall|u: int|
                                        0 <= u < nodes@.len() ==> (#[trigger] nodes@[u]) < np,
                                    forall|u: int|
                                        0 <= u < nodesv.len() ==> gg_qualifies(
                                            g,
                                            *hack,
                                            #[trigger] nodesv[u],
                                        ),
                                    hashesv == strs_view(hashes@),
                                    h == hashesv[hi as int],
                                    msg@ == pairhead + gg_hash_pairs(
                                        g,
                                        *hack,
                                        nodesv,
                                        h,
                                        t2 as int,
                                    ),
                                decreases nn - t2,
                            {
                                let nd = nodes[t2];
                                proof {
                                    assert(nodesv[t2 as int] == nd as int);
                                    assert(gg_qualifies(g, *hack, nd as int));
                                }
                                let ndh = match git_src_exec(g, nd) {
                                    Some(p) => p.1,
                                    None => {
                                        proof {
                                            assert(false);
                                        }
                                        &g.packages[nd].name
                                    },
                                };
                                if str_eq(ndh.as_str(), hashes[hi].as_str()) {
                                    // Write one line per dependent of this node.
                                    let deps = g.dependents_of(nd, hack);
                                    let ghost depsv = g.dependents(nd as int, *hack);
                                    let ghost linehead = msg@;
                                    let ndp = deps.len();
                                    let mut w: usize = 0;
                                    proof {
                                        assert(msg@ =~= linehead + gg_pair_lines(
                                            g,
                                            nd as int,
                                            *hack,
                                            0,
                                        ));
                                    }
                                    while w < ndp
                                        invariant
                                            ctx.base.wf(),
                                            g == &ctx.base.graph,
                                            np == g.packages@.len(),
                                            nd < np,
                                            ndp == deps@.len(),
                                            w <= ndp,
                                            deps@.map_values(|x: usize| x as int) == depsv,
                                            forall|u: int|
                                                0 <= u < deps@.len() ==> (#[trigger] deps@[u])
                                                    < np,
                                            msg@ == linehead + gg_pair_lines(
                                                g,
                                                nd as int,
                                                *hack,
                                                w as int,
                                            ),
                                        decreases ndp - w,
                                    {
                                        let dw = deps[w];
                                        proof {
                                            assert(depsv[w as int] == dw as int);
                                        }
                                        msg.append("    * ");
                                        msg.append(g.packages[dw].name.as_str());
                                        msg.append(" -> ");
                                        msg.append(g.packages[nd].name.as_str());
                                        msg.append("\n");
                                        w += 1;
                                        proof {
                                            assert(msg@ =~= linehead + gg_pair_lines(
                                                g,
                                                nd as int,
                                                *hack,
                                                w as int,
                                            ));
                                        }
                                    }
                                }
                                t2 += 1;
                                proof {
                                    assert(msg@ =~= pairhead + gg_hash_pairs(
                                        g,
                                        *hack,
                                        nodesv,
                                        h,
                                        t2 as int,
                                    ));
                                }
                            }
                            hi += 1;
                            proof {
                                assert(gg_hash_block(g, *hack, nodesv, h) =~= "  * "@ + h + ":\n"@
                                    + gg_hash_pairs(g, *hack, nodesv, h, nodesv.len() as int));
                                assert(msg@ =~= msghead + gg_blocks(
                                    g,
                                    *hack,
                                    nodesv,
                                    hashesv,
                                    hi as int,
                                ));
                            }
                        }
                        proof {
                            assert(msg@ =~= gg_message(g, *hack, repov, nodesv));
                        }
                        let em = Emit {
                            kind: LintKind::Project,
                            level: LintLevel::Error,
                            message: msg,
                        };
                        let ghost emg = em;
                        let ghost oldr = r@;
                        r.push(em);
                        proof {
                            crate::message::lemma_emits_view_push(oldr, emg);
                            assert(emg@ =~~= gg_emit_at(g, *hack, jj)[0]);
                            assert(emits_view(r@) =~~= gg_run_upto(g, *hack, jj + 1));
                        }
                    }
                }
            }
            if !emit_here {
                proof {
                    assert(gg_emit_at(g, *hack, jj) =~= Seq::<EmitView>::empty());
                    assert(emits_view(r@) =~= gg_run_upto(g, *hack, jj + 1));
                }
            }
            j += 1;
        }
        r
    }
}

/// The nodes of `gg_nodes_upto` are exactly the qualifying nodes of the
/// repository below `n`, in node order.
pub proof fn lemma_gg_nodes_members(
    g: &PackageGraph,
    hack: Option<String>,
    repo: Seq<char>,
    n: int,
)
    ensures
        forall|t: int|
            0 <= t < gg_nodes_upto(g, hack, repo, n).len() ==> {
                let j = #[trigger] gg_nodes_upto(g, hack, repo, n)[t];
                0 <= j < n && gg_qualifies(g, hack, j) && git_src(g, j)->Some_0.0 == repo
            },
        forall|j: int|
            0 <= j < n && gg_qualifies(g, hack, j) && (#[trigger] git_src(g, j))->Some_0.0 == repo
                ==> gg_nodes_upto(g, hack, repo, n).contains(j),
    decreases n,
{
    if n > 0 {
        lemma_gg_nodes_members(g, hack, repo, n - 1);
        let prev = gg_nodes_upto(g, hack, repo, n - 1);
        let cur = gg_nodes_upto(g, hack, repo, n);
        assert forall|t: int| 0 <= t < cur.len() implies {
            let j = #[trigger] cur[t];
            0 <= j < n && gg_qualifies(g, hack, j) && git_src(g, j)->Some_0.0 == repo
        } by {
            if t < prev.len() {
                assert(cur[t] == prev[t]);
            }
        }
        assert forall|j: int|
            0 <= j < n && gg_qualifies(g, hack, j) && (#[trigger] git_src(g, j))->Some_0.0
                == repo implies cur.contains(j) by {
            if j < n - 1 {
                let t = choose|t: int| 0 <= t < prev.len() && prev[t] == j;
                assert(cur[t] == j);
            } else {
                assert(cur[cur.len() - 1] == j);
            }
        }
    }
}

/// The hash blocks hold every hash among the first `k`.
proof fn lemma_gg_blocks_contain_hashes(
    g: &PackageGraph,
    hack: Option<String>,
    nodes: Seq<int>,
    hs: Seq<Seq<char>>,
    k: int,
    t: int,
)
    requires
        0 <= t < k <= hs.len(),
    ensures
        crate::strutil::contains_seq(gg_blocks(g, hack, nodes, hs, k), hs[t]),
    decreases k,
{
    if t == k - 1 {
        let h = hs[k - 1];
        let p = "  * "@;
        assert((p + h).subrange(p.len() as int, p.len() + h.len() as int) =~= h);
        crate::strutil::lemma_contains_seq_left(p + h, ":\n"@, h);
        assert(p + h + ":\n"@ =~= (p + h) + ":\n"@);
        crate::strutil::lemma_contains_seq_left(
            p + h + ":\n"@,
            gg_hash_pairs(g, hack, nodes, h, nodes.len() as int),
            h,
        );
        assert(gg_hash_block(g, hack, nodes, h) =~= (p + h + ":\n"@) + gg_hash_pairs(
            g,
            hack,
            nodes,
            h,
            nodes.len() as int,
        ));
        crate::strutil::lemma_contains_seq_right(
            gg_blocks(g, hack, nodes, hs, k - 1),
            gg_hash_block(g, hack, nodes, h),
            h,
        );
    } else {
        lemma_gg_blocks_contain_hashes(g, hack, nodes, hs, k - 1, t);
        crate::strutil::lemma_contains_seq_left(
            gg_blocks(g, hack, nodes, hs, k - 1),
            gg_hash_block(g, hack, nodes, hs[k - 1]),
            hs[t],
        );
    }
}

/// Law: the duplicate-git-dependency message enumerates every distinct
/// resolved hash of the repository.
pub proof fn lemma_git_message_names_hashes(
    g: &PackageGraph,
    hack: Option<String>,
    repo: Seq<char>,
    nodes: Seq<int>,
)
    ensures
        forall|t: int|
            0 <= t < gg_hashes(g, nodes, nodes.len() as int).len()
                ==> crate::strutil::contains_seq(
                gg_message(g, hack, repo, nodes),
                #[trigger] gg_hashes(g, nodes, nodes.len() as int)[t],
            ),
{
    let hs = gg_hashes(g, nodes, nodes.len() as int);
    let head = "duplicate git dependency on repository '"@ + repo + "':\n"@;
    let blocks = gg_blocks(g, hack, nodes, hs, hs.len() as int);
    assert forall|t: int| 0 <= t < hs.len() implies crate::strutil::contains_seq(
        gg_message(g, hack, repo, nodes),
        #[trigger] hs[t],
    ) by {
        lemma_gg_blocks_contain_hashes(g, hack, nodes, hs, hs.len() as int, t);
        crate::strutil::lemma_contains_seq_right(head, blocks, hs[t]);
        assert(gg_message(g, hack, repo, nodes) =~= head + blocks);
    }
}

/// Law: a repository whose qualifying nodes all resolve to one commit hash
/// is not reported.
pub proof fn lemma_git_same_hash_not_reported(g: &PackageGraph, hack: Option<String>, j: int)
    requires
        0 <= j < g.packages@.len(),
        forall|a: int, b: int|
            0 <= a < gg_nodes(g, hack, git_src(g, j)->Some_0.0).len() && 0 <= b < gg_nodes(
                g,
                hack,
                git_src(g, j)->Some_0.0,
            ).len() ==> git_src(
                g,
                #[trigger] gg_nodes(g, hack, git_src(g, j)->Some_0.0)[a],
            )->Some_0.1 == git_src(
                g,
                #[trigger] gg_nodes(g, hack, git_src(g, j)->Some_0.0)[b],
            )->Some_0.1,
    ensures
        gg_emit_at(g, hack, j) == Seq::<EmitView>::empty(),
{
    let repo = git_src(g, j)->Some_0.0;
    let nodes = gg_nodes(g, hack, repo);
    lemma_gg_hashes_bound(g, nodes, nodes.len() as int);
}

/// With all hashes equal among the first `k` nodes, at most one distinct
/// hash is collected.
proof fn lemma_gg_hashes_bound(g: &PackageGraph, nodes: Seq<int>, k: int)
    requires
        forall|a: int, b: int|
            0 <= a < nodes.len() && 0 <= b < nodes.len() ==> git_src(
                g,
                #[trigger] nodes[a],
            )->Some_0.1 == git_src(g, #[trigger] nodes[b])->Some_0.1,
        k <= nodes.len(),
    ensures
        gg_hashes(g, nodes, k).len() <= 1,
        forall|t: int|
            0 <= t < gg_hashes(g, nodes, k).len() ==> exists|a: int|
                0 <= a < k && #[trigger] gg_hashes(g, nodes, k)[t] == git_src(
                    g,
                    nodes[a],
                )->Some_0.1,
    decreases k,
{
    if k > 0 {
        lemma_gg_hashes_bound(g, nodes, k - 1);
        let prev = gg_hashes(g, nodes, k - 1);
        let h = git_src(g, nodes[k - 1])->Some_0.1;
        if !prev.contains(h) {
            assert(prev.len() == 0) by {
                if prev.len() > 0 {
                    let a = choose|a: int|
                        0 <= a < k - 1 && #[trigger] prev[0] == git_src(g, nodes[a])->Some_0.1;
                    assert(git_src(g, nodes[a])->Some_0.1 == h);
                    assert(prev[0] == h);
                }
            }
            assert forall|t: int| 0 <= t < gg_hashes(g, nodes, k).len() implies exists|a: int|
                0 <= a < k && #[trigger] gg_hashes(g, nodes, k)[t] == git_src(
                    g,
                    nodes[a],
                )->Some_0.1 by {
                assert(gg_hashes(g, nodes, k)[t] == git_src(g, nodes[k - 1])->Some_0.1);
            }
        } else {
            assert forall|t: int| 0 <= t < gg_hashes(g, nodes, k).len() implies exists|a: int|
                0 <= a < k && #[trigger] gg_hashes(g, nodes, k)[t] == git_src(
                    g,
                    nodes[a],
                )->Some_0.1 by {
                let a = choose|a: int|
                    0 <= a < k - 1 && #[trigger] prev[t] == git_src(g, nodes[a])->Some_0.1;
                assert(0 <= a < k && gg_hashes(g, nodes, k)[t] == git_src(g, nodes[a])->Some_0.1);
            }
        }
    }
}

/// Law: the first qualifying node of a repository resolved to at least two
/// distinct commit hashes yields exactly one project-level error carrying
/// the full per-hash report.
pub proof fn lemma_git_two_hashes_reported(g: &PackageGraph, hack: Option<String>, j: int)
    requires
        gg_is_first(g, hack, j),
        ({
            let nodes = gg_nodes(g, hack, git_src(g, j)->Some_0.0);
            gg_hashes(g, nodes, nodes.len() as int).len() >= 2
        }),
    ensures
        gg_emit_at(g, hack, j).len() == 1,
        gg_emit_at(g, hack, j)[0].kind is Project,
        gg_emit_at(g, hack, j)[0].level is Error,
        gg_emit_at(g, hack, j)[0].message == gg_message(
            g,
            hack,
            git_src(g, j)->Some_0.0,
            gg_nodes(g, hack, git_src(g, j)->Some_0.0),
        ),
{
}

/// Law: a name banned with the `Always` policy yields, for every graph
/// package bearing it, exactly one project-level error whose message holds
/// the configured text — and those emits do not depend on the dependency
/// edges, so they are the same however many packages depend on it.
pub proof fn lemma_banned_always_one_error(
    g: &PackageGraph,
    cfg: Seq<(String, BannedDepConfig)>,
    hack: Option<String>,
    i: int,
)
    requires
        0 <= i < g.packages@.len(),
        find_banned(cfg, g.packages@[i].name@) is Some,
        find_banned(cfg, g.packages@[i].name@)->Some_0.type_ is Always,
    ensures
        banned_emits_at(g, cfg, hack, i).len() == 1,
        banned_emits_at(g, cfg, hack, i)[0].kind is Project,
        banned_emits_at(g, cfg, hack, i)[0].level is Error,
        crate::strutil::contains_seq(
            banned_emits_at(g, cfg, hack, i)[0].message,
            find_banned(cfg, g.packages@[i].name@)->Some_0.message@,
        ),
        forall|g2: PackageGraph|
            g2.packages == g.packages ==> #[trigger] banned_emits_at(&g2, cfg, hack, i)
                == banned_emits_at(g, cfg, hack, i),
{
    let c = find_banned(cfg, g.packages@[i].name@)->Some_0;
    let m = banned_emits_at(g, cfg, hack, i)[0].message;
    let msg = c.message@;
    let k = m.len() - msg.len();
    assert(m.subrange(k, k + msg.len() as int) =~= msg);
}

/// Law: a name banned with the `Direct` policy yields exactly one
/// package-level error per direct workspace dependent (the workspace-hack
/// package excepted), each holding the configured text.
pub proof fn lemma_banned_direct_per_dependent(
    g: &PackageGraph,
    cfg: Seq<(String, BannedDepConfig)>,
    hack: Option<String>,
    i: int,
)
    requires
        0 <= i < g.packages@.len(),
        find_banned(cfg, g.packages@[i].name@) is Some,
        find_banned(cfg, g.packages@[i].name@)->Some_0.type_ is Direct,
    ensures
        banned_emits_at(g, cfg, hack, i).len() == g.dependents(i, hack).len(),
        forall|k: int|
            0 <= k < g.dependents(i, hack).len() ==> {
                let e = #[trigger] banned_emits_at(g, cfg, hack, i)[k];
                &&& e.kind == pkg_kind(g, g.dependents(i, hack)[k])
                &&& e.level is Error
                &&& crate::strutil::contains_seq(
                    e.message,
                    find_banned(cfg, g.packages@[i].name@)->Some_0.message@,
                )
            },
{
    let c = find_banned(cfg, g.packages@[i].name@)->Some_0;
    let msg = c.message@;
    assert forall|k: int| 0 <= k < g.dependents(i, hack).len() implies {
        let e = #[trigger] banned_emits_at(g, cfg, hack, i)[k];
        &&& e.kind == pkg_kind(g, g.dependents(i, hack)[k])
        &&& e.level is Error
        &&& crate::strutil::contains_seq(e.message, msg)
    } by {
        let e = banned_emits_at(g, cfg, hack, i)[k];
        assert(e == direct_emit(g, i, g.dependents(i, hack)[k], msg));
        let m = e.message;
        let off = m.len() - msg.len();
        assert(m.subrange(off, off + msg.len() as int) =~= msg);
    }
}

} // verus!
