//! The resolved package dependency graph, modelled as plain data.
//!
//! Nodes are packages with their metadata; edges are direct dependency links
//! between node indices.  A graph is well-formed when every edge endpoint is
//! a valid node index.  Packages are expected in the provider's natural,
//! deterministic order (by name, then version); every rule iterates in node
//! and edge order, so the reported output is a pure function of the
//! snapshot.

use vstd::prelude::*;
use crate::strutil::str_eq;
use crate::strutil::u64_to_string;
use crate::strutil::dec_str;
use vstd::string::StrSliceExecFns;
use vstd::string::StringExecFns;

verus! {

/// A resolved semantic version: the numeric triple plus the pre-release and
/// build-metadata identifiers (empty when absent).
#[derive(Clone, Debug, PartialEq, Eq, Hash)]
pub struct Version {
    pub major: u64,
    pub minor: u64,
    pub patch: u64,
    pub pre: String,
    pub build: String,
}

/// Whether two versions are the same resolved version: equal in every
/// component.
pub open spec fn version_same(a: Version, b: Version) -> bool {
    a.major == b.major && a.minor == b.minor && a.patch == b.patch && a.pre@ == b.pre@ && a.build@
        == b.build@
}

/// The rendering of a version: `major.minor.patch`, `-pre` when a
/// pre-release identifier is present, `+build` when build metadata is
/// present.
pub open spec fn version_chars(v: Version) -> Seq<char> {
    dec_str(v.major as nat) + seq!['.'] + dec_str(v.minor as nat) + seq!['.'] + dec_str(
        v.patch as nat,
    ) + (if v.pre@.len() > 0 {
        seq!['-'] + v.pre@
    } else {
        Seq::<char>::empty()
    }) + (if v.build@.len() > 0 {
        seq!['+'] + v.build@
    } else {
        Seq::<char>::empty()
    })
}

impl Version {
    /// Builds a plain version from its three numeric components.
    pub fn new(major: u64, minor: u64, patch: u64) -> (r: Version)
        ensures
            r.major == major,
            r.minor == minor,
            r.patch == patch,
            r.pre@ == Seq::<char>::empty(),
            r.build@ == Seq::<char>::empty(),
    {
        Version { major, minor, patch, pre: String::new(), build: String::new() }
    }

    /// Builds a version with pre-release and build-metadata identifiers.
    pub fn full(major: u64, minor: u64, patch: u64, pre: String, build: String) -> (r: Version)
        ensures
            r == (Version { major, minor, patch, pre, build }),
    {
        Version { major, minor, patch, pre, build }
    }

    /// Whether two versions are the same resolved version.
    pub fn same(&self, other: &Version) -> (r: bool)
        ensures
            r == version_same(*self, *other),
    {
        self.major == other.major && self.minor == other.minor && self.patch == other.patch
            && str_eq(self.pre.as_str(), other.pre.as_str()) && str_eq(
            self.build.as_str(),
            other.build.as_str(),
        )
    }

    /// Renders the version.
    pub fn render(&self) -> (r: String)
        ensures
            r@ == version_chars(*self),
    {
        let mut s = u64_to_string(self.major);
        proof {
            reveal_strlit(".");
            reveal_strlit("-");
            reveal_strlit("+");
            assert("."@ =~= seq!['.']);
            assert("-"@ =~= seq!['-']);
            assert("+"@ =~= seq!['+']);
        }
        s.append(".");
        let minor = u64_to_string(self.minor);
        s.append(minor.as_str());
        s.append(".");
        let patch = u64_to_string(self.patch);
        s.append(patch.as_str());
        if self.pre.as_str().unicode_len() > 0 {
            s.append("-");
            s.append(self.pre.as_str());
        }
        if self.build.as_str().unicode_len() > 0 {
            s.append("+");
            s.append(self.build.as_str());
        }
        proof {
            assert(s@ =~= version_chars(*self));
        }
        s
    }
}

/// Where a package may be published: anywhere, or to a fixed registry set.
/// An empty registry set means the package is never published.
#[derive(Clone, Debug, PartialEq, Eq)]
pub enum PublishPolicy {
    Unrestricted,
    Registries(Vec<String>),
}

impl PublishPolicy {
    /// Whether the policy forbids publishing entirely.
    pub open spec fn spec_is_never(&self) -> bool {
        match self {
            PublishPolicy::Registries(v) => v@.len() == 0,
            PublishPolicy::Unrestricted => false,
        }
    }

    /// Runtime check for the never-published policy.
    pub fn is_never(&self) -> (r: bool)
        ensures
            r == self.spec_is_never(),
    {
        match self {
            PublishPolicy::Registries(v) => v.len() == 0,
            PublishPolicy::Unrestricted => false,
        }
    }
}

/// How a package's source was resolved.
#[derive(Clone, Debug, PartialEq, Eq)]
pub enum PackageSource {
    /// A first-party package living inside the workspace.
    Workspace,
    /// A third-party package from a registry.
    Registry(String),
    /// A third-party package fetched from a git repository, pinned to a
    /// resolved commit hash.
    Git { repository: String, resolved: String },
}

/// One build target (binary, library, example...) of a package.
#[derive(Clone, Debug, PartialEq, Eq)]
pub struct BuildTarget {
    pub name: String,
    pub path: String,
}

/// The dependency category of an edge.
#[derive(Clone, Copy, Debug, PartialEq, Eq, Structural)]
pub enum DepKind {
    Normal,
    Build,
    Dev,
}

/// A direct dependency link between two node indices, carrying the version
/// requirement the dependent wrote.
#[derive(Clone, Debug, PartialEq, Eq)]
pub struct DependencyEdge {
    pub from: usize,
    pub to: usize,
    pub req: String,
    pub kind: DepKind,
}

/// A package node with the metadata the rules read.
#[derive(Clone, Debug, PartialEq, Eq)]
pub struct Package {
    pub name: String,
    pub version: Version,
    /// The package's path relative to the project root; present exactly for
    /// workspace members.
    pub workspace_path: Option<String>,
    pub publish: PublishPolicy,
    pub authors: Vec<String>,
    pub license: Option<String>,
    pub build_targets: Vec<BuildTarget>,
    pub has_build_script: bool,
    pub source: PackageSource,
}

/// The resolved dependency graph snapshot.
#[derive(Clone, Debug, PartialEq, Eq)]
pub struct PackageGraph {
    pub packages: Vec<Package>,
    pub edges: Vec<DependencyEdge>,
}

impl PackageGraph {
    /// Well-formedness: every edge endpoint is a valid node index.
    pub open spec fn wf(&self) -> bool {
        forall|e: int|
            0 <= e < self.edges@.len() ==> (#[trigger] self.edges@[e]).from < self.packages@.len()
                && self.edges@[e].to < self.packages@.len()
    }

    /// Runtime well-formedness check.
    pub fn check_wf(&self) -> (r: bool)
        ensures
            r == self.wf(),
    {
        let ne = self.edges.len();
        let np = self.packages.len();
        let mut i: usize = 0;
        while i < ne
            invariant
                ne == self.edges@.len(),
                np == self.packages@.len(),
                i <= ne,
                forall|e: int|
                    0 <= e < i ==> (#[trigger] self.edges@[e]).from < np && self.edges@[e].to < np,
            decreases ne - i,
        {
            if self.edges[i].from >= np || self.edges[i].to >= np {
                return false;
            }
            i += 1;
        }
        true
    }

    /// Whether node `i` is a workspace member.
    pub open spec fn in_workspace(&self, i: int) -> bool {
        self.packages@[i].workspace_path is Some
    }

    /// Whether node `i` is the configured workspace-hack package.
    pub open spec fn is_hack(&self, i: int, hack: Option<String>) -> bool {
        match hack {
            Some(h) => self.packages@[i].name@ == h@,
            None => false,
        }
    }

    /// Whether there is a direct dependency edge from node `f` to node `t`.
    pub open spec fn direct_edge(&self, f: int, t: int) -> bool {
        exists|e: int|
            0 <= e < self.edges@.len() && (#[trigger] self.edges@[e]).from == f
                && self.edges@[e].to == t
    }

    /// Whether workspace member `w` counts as a direct dependent of node
    /// `t`: in the workspace, not the workspace-hack package, and linked by
    /// a direct edge.
    pub open spec fn is_dependent(&self, w: int, t: int, hack: Option<String>) -> bool {
        &&& 0 <= w < self.packages@.len()
        &&& self.in_workspace(w)
        &&& !self.is_hack(w, hack)
        &&& self.direct_edge(w, t)
    }

    /// The direct dependents of `t` among the first `n` nodes, in node
    /// order.
    pub open spec fn dependents_upto(&self, t: int, hack: Option<String>, n: int) -> Seq<int>
        decreases n,
    {
        if n <= 0 {
            Seq::<int>::empty()
        } else {
            let prev = self.dependents_upto(t, hack, n - 1);
            if self.is_dependent(n - 1, t, hack) {
                prev.push(n - 1)
            } else {
                prev
            }
        }
    }

    /// All direct dependents of `t`, in node order.
    pub open spec fn dependents(&self, t: int, hack: Option<String>) -> Seq<int> {
        self.dependents_upto(t, hack, self.packages@.len() as int)
    }

    /// Runtime test for a direct edge from `f` to `t`.
    pub fn has_direct_edge(&self, f: usize, t: usize) -> (r: bool)
        ensures
            r == self.direct_edge(f as int, t as int),
    {
        let ne = self.edges.len();
        let mut i: usize = 0;
        while i < ne
            invariant
                ne == self.edges@.len(),
                i <= ne,
                forall|e: int|
                    0 <= e < i ==> !((#[trigger] self.edges@[e]).from == f as int
                        && self.edges@[e].to == t as int),
            decreases ne - i,
        {
            if self.edges[i].from == f && self.edges[i].to == t {
                return true;
            }
            i += 1;
        }
        proof {
            if self.direct_edge(f as int, t as int) {
                let e = choose|e: int|
                    0 <= e < self.edges@.len() && (#[trigger] self.edges@[e]).from == f as int
                        && self.edges@[e].to == t as int;
                assert(!(self.edges@[e].from == f as int && self.edges@[e].to == t as int));
            }
        }
        false
    }

    /// Runtime test for the workspace-hack package.
    pub fn is_hack_pkg(&self, i: usize, hack: &Option<String>) -> (r: bool)
        requires
            i < self.packages@.len(),
        ensures
            r == self.is_hack(i as int, *hack),
    {
        match hack {
            Some(h) => str_eq(self.packages[i].name.as_str(), h.as_str()),
            None => false,
        }
    }

    /// Runtime test for `is_dependent`.
    pub fn check_dependent(&self, w: usize, t: usize, hack: &Option<String>) -> (r: bool)
        requires
            w < self.packages@.len(),
        ensures
            r == self.is_dependent(w as int, t as int, *hack),
    {
        if self.packages[w].workspace_path.is_some() {
            if !self.is_hack_pkg(w, hack) {
                return self.has_direct_edge(w, t);
            }
        }
        false
    }

    /// Collects the direct dependents of `t`, in node order.
    pub fn dependents_of(&self, t: usize, hack: &Option<String>) -> (r: Vec<usize>)
        ensures
            r@.map_values(|x: usize| x as int) == self.dependents(t as int, *hack),
            forall|j: int| 0 <= j < r@.len() ==> (#[trigger] r@[j]) < self.packages@.len(),
    {
        let np = self.packages.len();
        let mut r: Vec<usize> = Vec::new();
        let mut i: usize = 0;
        while i < np
            invariant
                np == self.packages@.len(),
                i <= np,
                r@.map_values(|x: usize| x as int) == self.dependents_upto(
                    t as int,
                    *hack,
                    i as int,
                ),
                forall|j: int| 0 <= j < r@.len() ==> (#[trigger] r@[j]) < np,
            decreases np - i,
        {
            if self.check_dependent(i, t, hack) {
                r.push(i);
            }
            i += 1;
            proof {
                assert(r@.map_values(|x: usize| x as int) =~= self.dependents_upto(
                    t as int,
                    *hack,
                    i as int,
                ));
            }
        }
        r
    }
}

/// Every entry of `dependents_upto` is a dependent index below `n`, and the
/// sequence lists indices in increasing order.
pub proof fn lemma_dependents_upto_members(
    g: &PackageGraph,
    t: int,
    hack: Option<String>,
    n: int,
)
    ensures
        forall|j: int|
            0 <= j < g.dependents_upto(t, hack, n).len() ==> {
                let w = #[trigger] g.dependents_upto(t, hack, n)[j];
                0 <= w < n && g.is_dependent(w, t, hack)
            },
        forall|w: int| 0 <= w < n && g.is_dependent(w, t, hack) ==> g.dependents_upto(
            t,
            hack,
            n,
        ).contains(w),
    decreases n,
{
    if n > 0 {
        lemma_dependents_upto_members(g, t, hack, n - 1);
        let prev = g.dependents_upto(t, hack, n - 1);
        let cur = g.dependents_upto(t, hack, n);
        assert forall|j: int| 0 <= j < cur.len() implies {
            let w = #[trigger] cur[j];
            0 <= w < n && g.is_dependent(w, t, hack)
        } by {
            if j < prev.len() {
                assert(cur[j] == prev[j]);
            }
        }
        assert forall|w: int| 0 <= w < n && g.is_dependent(w, t, hack) implies g.dependents_upto(
            t,
            hack,
            n,
        ).contains(w) by {
            if w < n - 1 {
                let prev = g.dependents_upto(t, hack, n - 1);
                let j = choose|j: int| 0 <= j < prev.len() && prev[j] == w;
                assert(g.dependents_upto(t, hack, n)[j] == w);
            } else {
                let s = g.dependents_upto(t, hack, n);
                assert(s[s.len() - 1] == w);
            }
        }
    }
}

} // verus!
