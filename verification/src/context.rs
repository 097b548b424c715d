//! The per-run workspace snapshot and the per-target lint contexts.
//!
//! A `NexLintContext` is built once per run from plain values: the project
//! root, the current directory, the version-control-tracked files (with
//! their decoded contents, where the bytes were valid text) and the resolved
//! package graph.  The snapshot is immutable for the whole run, so every
//! engine run over the same snapshot returns the same results.

use vstd::prelude::*;
use crate::errors::SystemError;
use crate::graph::PackageGraph;
use crate::strutil::str_eq;
use crate::strutil::str_starts_with;
use crate::strutil::starts_with;
use crate::strutil::strs_view;
use vstd::string::StrSliceExecFns;
use vstd::string::StringExecFns;

verus! {

/// One version-control-tracked file: its root-relative path and its content
/// decoded as text, or `None` where the bytes were not valid text.
#[derive(Clone, Debug, PartialEq, Eq)]
pub struct TrackedFile {
    pub path: String,
    pub content: Option<String>,
}

/// Core context shared by every rule for one run.
#[derive(Debug)]
pub struct NexLintContext {
    pub project_root: String,
    pub current_dir: String,
    pub current_rel_dir: String,
    pub files: Vec<TrackedFile>,
    pub graph: PackageGraph,
    pub workspace_hack_name: Option<String>,
}

/// The current directory relative to the root: empty when they coincide,
/// the remainder after `root/` when the directory lies below the root, and
/// `None` otherwise.
pub open spec fn rel_dir_of(cur: Seq<char>, root: Seq<char>) -> Option<Seq<char>> {
    if cur == root {
        Some(Seq::<char>::empty())
    } else if starts_with(cur, root + seq!['/']) {
        Some(cur.subrange(root.len() as int + 1, cur.len() as int))
    } else {
        None
    }
}

impl NexLintContext {
    /// Validity of the snapshot: the graph's edges are in range.
    pub open spec fn wf(&self) -> bool {
        self.graph.wf()
    }

    /// Builds the snapshot, rejecting a current directory outside the
    /// project root and a malformed graph.
    pub fn new(
        project_root: String,
        current_dir: String,
        files: Vec<TrackedFile>,
        graph: PackageGraph,
        workspace_hack_name: Option<String>,
    ) -> (r: Result<NexLintContext, SystemError>)
        ensures
            match r {
                Ok(c) => {
                    &&& c.wf()
                    &&& graph.wf()
                    &&& rel_dir_of(current_dir@, project_root@) is Some
                    &&& c.project_root@ == project_root@
                    &&& c.current_dir@ == current_dir@
                    &&& c.current_rel_dir@ == rel_dir_of(current_dir@, project_root@)->Some_0
                    &&& c.files == files
                    &&& c.graph == graph
                    &&& c.workspace_hack_name == workspace_hack_name
                },
                Err(SystemError::InvalidGraph) => !graph.wf(),
                Err(SystemError::CwdNotInProjectRoot { current_dir: cd, project_root: pr }) => {
                    &&& graph.wf()
                    &&& rel_dir_of(current_dir@, project_root@) is None
                    &&& cd@ == current_dir@
                    &&& pr@ == project_root@
                },
                Err(_) => false,
            },
    {
        if !graph.check_wf() {
            return Err(SystemError::InvalidGraph);
        }
        let current_rel_dir: String;
        if str_eq(current_dir.as_str(), project_root.as_str()) {
            current_rel_dir = String::new();
        } else {
            let mut prefix = project_root.clone();
            proof {
                reveal_strlit("/");
                assert("/"@ =~= seq!['/']);
            }
            prefix.append("/");
            if str_starts_with(current_dir.as_str(), prefix.as_str()) {
                let nc = current_dir.as_str().unicode_len();
                let np = prefix.as_str().unicode_len();
                current_rel_dir = current_dir.as_str().substring_char(np, nc).to_owned();
            } else {
                return Err(
                    SystemError::CwdNotInProjectRoot { current_dir, project_root },
                );
            }
        }
        Ok(
            NexLintContext {
                project_root,
                current_dir,
                current_rel_dir,
                files,
                graph,
                workspace_hack_name,
            },
        )
    }

    /// The project root path.
    pub fn project_root(&self) -> (r: &String)
        ensures
            r@ == self.project_root@,
    {
        &self.project_root
    }

    /// The current working directory.
    pub fn current_dir(&self) -> (r: &String)
        ensures
            r@ == self.current_dir@,
    {
        &self.current_dir
    }

    /// The current working directory relative to the project root.
    pub fn current_rel_dir(&self) -> (r: &String)
        ensures
            r@ == self.current_rel_dir@,
    {
        &self.current_rel_dir
    }

    /// Whether the run was started from the project root.
    pub fn current_dir_is_root(&self) -> (r: bool)
        ensures
            r == (self.current_rel_dir@.len() == 0),
    {
        self.current_rel_dir.as_str().unicode_len() == 0
    }

    /// The resolved package graph of the snapshot.
    pub fn package_graph(&self) -> (r: &PackageGraph)
        ensures
            r == &self.graph,
    {
        &self.graph
    }

    /// The tracked files of the snapshot.
    pub fn tracked_files(&self) -> (r: &Vec<TrackedFile>)
        ensures
            r == &self.files,
    {
        &self.files
    }

    /// The name of the workspace-hack package, if one is configured.
    pub fn workspace_hack_name(&self) -> (r: &Option<String>)
        ensures
            r == &self.workspace_hack_name,
    {
        &self.workspace_hack_name
    }

    /// Whether some workspace member is named `name`.
    pub open spec fn spec_has_workspace_name(&self, name: Seq<char>) -> bool {
        exists|i: int|
            0 <= i < self.graph.packages@.len() && self.graph.in_workspace(i)
                && (#[trigger] self.graph.packages@[i]).name@ == name
    }

    /// Runtime test for a workspace member named `name`.
    pub fn has_workspace_name(&self, name: &str) -> (r: bool)
        ensures
            r == self.spec_has_workspace_name(name@),
    {
        let np = self.graph.packages.len();
        let mut i: usize = 0;
        while i < np
            invariant
                np == self.graph.packages@.len(),
                i <= np,
                forall|j: int|
                    0 <= j < i ==> !(self.graph.in_workspace(j) && (
                    #[trigger] self.graph.packages@[j]).name@ == name@),
            decreases np - i,
        {
            if self.graph.packages[i].workspace_path.is_some() && str_eq(
                self.graph.packages[i].name.as_str(),
                name,
            ) {
                return true;
            }
            i += 1;
        }
        proof {
            if self.spec_has_workspace_name(name@) {
                let j = choose|j: int|
                    0 <= j < self.graph.packages@.len() && self.graph.in_workspace(j) && (
                    #[trigger] self.graph.packages@[j]).name@ == name@;
                assert(!(self.graph.in_workspace(j) && self.graph.packages@[j].name@ == name@));
            }
        }
        false
    }

    /// The names among the first `n` entries that are workspace members
    /// (when `known` is true), or that are not (when `known` is false).
    pub open spec fn partition_upto(
        &self,
        names: Seq<Seq<char>>,
        known: bool,
        n: int,
    ) -> Seq<Seq<char>>
        decreases n,
    {
        if n <= 0 {
            Seq::<Seq<char>>::empty()
        } else {
            let prev = self.partition_upto(names, known, n - 1);
            if self.spec_has_workspace_name(names[n - 1]) == known {
                prev.push(names[n - 1])
            } else {
                prev
            }
        }
    }

    /// Splits `names` into those that are workspace members and those that
    /// are not, keeping the input order within each part.
    pub fn partition_workspace_names(&self, names: &Vec<String>) -> (r: (Vec<String>, Vec<String>))
        ensures
            strs_view(r.0@) == self.partition_upto(strs_view(names@), true, names@.len() as int),
            strs_view(r.1@) == self.partition_upto(strs_view(names@), false, names@.len() as int),
    {
        let n = names.len();
        let mut known: Vec<String> = Vec::new();
        let mut unknown: Vec<String> = Vec::new();
        let mut i: usize = 0;
        while i < n
            invariant
                n == names@.len(),
                i <= n,
                strs_view(known@) == self.partition_upto(strs_view(names@), true, i as int),
                strs_view(unknown@) == self.partition_upto(strs_view(names@), false, i as int),
            decreases n - i,
        {
            if self.has_workspace_name(names[i].as_str()) {
                let nm = names[i].clone();
                known.push(nm);
            } else {
                let nm = names[i].clone();
                unknown.push(nm);
            }
            i += 1;
            proof {
                assert(strs_view(known@) =~= self.partition_upto(
                    strs_view(names@),
                    true,
                    i as int,
                ));
                assert(strs_view(unknown@) =~= self.partition_upto(
                    strs_view(names@),
                    false,
                    i as int,
                ));
            }
        }
        (known, unknown)
    }
}

/// Context handed to whole-project rules.
pub struct ProjectContext<'l> {
    pub base: &'l NexLintContext,
}

impl<'l> ProjectContext<'l> {
    /// Wraps the base context for project-scope rules.
    pub fn new(base: &'l NexLintContext) -> (r: Self)
        ensures
            r.base == base,
    {
        ProjectContext { base }
    }

    /// The base context.
    pub fn base(&self) -> (r: &'l NexLintContext)
        ensures
            r == self.base,
    {
        self.base
    }

    /// The project root.
    pub fn project_root(&self) -> (r: &'l String)
        ensures
            r@ == self.base.project_root@,
    {
        &self.base.project_root
    }

    /// The package graph.
    pub fn package_graph(&self) -> (r: &'l PackageGraph)
        ensures
            r == &self.base.graph,
    {
        &self.base.graph
    }

    /// The configured workspace-hack package name, if any.
    pub fn workspace_hack_name(&self) -> (r: &'l Option<String>)
        ensures
            r == &self.base.workspace_hack_name,
    {
        &self.base.workspace_hack_name
    }

    /// The absolute path of a root-relative path.
    pub fn full_path(&self, path: &str) -> (r: String)
        ensures
            r@ == self.base.project_root@ + seq!['/'] + path@,
    {
        let mut s = self.base.project_root.clone();
        proof {
            reveal_strlit("/");
            assert("/"@ =~= seq!['/']);
        }
        s.append("/");
        s.append(path);
        proof {
            assert(s@ =~= self.base.project_root@ + seq!['/'] + path@);
        }
        s
    }
}

/// Context handed to per-package rules: the base context plus the node
/// index of the package under scrutiny.
pub struct PackageContext<'l> {
    pub base: &'l NexLintContext,
    pub package: usize,
}

impl<'l> PackageContext<'l> {
    /// Validity: the node index is in range and names a workspace member
    /// (per-package rules run for workspace members only).
    pub open spec fn wf(&self) -> bool {
        &&& self.base.wf()
        &&& (self.package as int) < self.base.graph.packages@.len()
        &&& self.base.graph.in_workspace(self.package as int)
    }

    /// Builds the context for one workspace member.
    pub fn new(base: &'l NexLintContext, package: usize) -> (r: Self)
        requires
            base.wf(),
            (package as int) < base.graph.packages@.len(),
            base.graph.in_workspace(package as int),
        ensures
            r.base == base,
            r.package == package,
            r.wf(),
    {
        PackageContext { base, package }
    }

    /// The package graph.
    pub fn package_graph(&self) -> (r: &'l PackageGraph)
        ensures
            r == &self.base.graph,
    {
        &self.base.graph
    }

    /// The package's path relative to the project root.
    pub fn workspace_path(&self) -> (r: &'l String)
        requires
            self.wf(),
        ensures
            r@ == self.base.graph.packages@[self.package as int].workspace_path->Some_0@,
    {
        match &self.base.graph.packages[self.package].workspace_path {
            Some(p) => p,
            None => {
                proof {
                    assert(false);
                }
                &self.base.project_root
            },
        }
    }

    /// The metadata of the package under scrutiny.
    pub fn metadata(&self) -> (r: &'l crate::graph::Package)
        requires
            self.wf(),
        ensures
            r == &self.base.graph.packages@[self.package as int],
    {
        &self.base.graph.packages[self.package]
    }
}

/// Context handed to per-file-path rules.
pub struct FilePathContext<'l> {
    pub base: &'l NexLintContext,
    pub file_path: &'l String,
}

impl<'l> FilePathContext<'l> {
    /// Builds the context for one tracked path.
    pub fn new(base: &'l NexLintContext, file_path: &'l String) -> (r: Self)
        ensures
            r.base == base,
            r.file_path == file_path,
    {
        FilePathContext { base, file_path }
    }

    /// The root-relative path of the file.
    pub fn file_path(&self) -> (r: &'l String)
        ensures
            r == self.file_path,
    {
        self.file_path
    }

    /// The file's extension: the part of the file name after the last dot,
    /// unless the only dot leads the name.
    pub fn extension(&self) -> (r: Option<String>)
        ensures
            match r {
                Some(e) => crate::license::extension_of(self.file_path@) == Some(e@),
                None => crate::license::extension_of(self.file_path@) is None,
            },
    {
        crate::license::extension_str(self.file_path.as_str())
    }
}

/// Context handed to per-file-content rules: the path context plus the
/// decoded text.
pub struct ContentContext<'l> {
    pub file: FilePathContext<'l>,
    pub content: &'l String,
}

impl<'l> ContentContext<'l> {
    /// Builds the context for one decodable tracked file.
    pub fn new(file: FilePathContext<'l>, content: &'l String) -> (r: Self)
        ensures
            r.file == file,
            r.content == content,
    {
        ContentContext { file, content }
    }

    /// The decoded text of the file.
    pub fn content(&self) -> (r: &'l String)
        ensures
            r == self.content,
    {
        self.content
    }

    /// The underlying file-path context.
    pub fn file_ctx(&self) -> (r: &FilePathContext<'l>)
        ensures
            r == &self.file,
    {
        &self.file
    }
}

} // verus!
