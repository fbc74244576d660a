//! Which project an event belongs to.
//!
//! A [`Resolver`] decides; the caller performs what it asks for and hands back the
//! reply, until the resolver is done.
use crate::error::labelled;
use crate::ids::{opt_bytes, same_bytes, ProjectId, WorkspaceId};
use crate::payload::{ProjectStrategy, DEFAULT_WORKSPACE_NAME};
use crate::project_cache::{
    inserted, key_view, lookup, used_last, without_key, EntryView, KeyView, ProjectCacheKey,
    ProjectCacheStore,
};
use crate::text::{
    opt_copy, opt_str, opt_str_view, opt_view, or_empty, same_text, strip_trailing, text_or_empty,
    without_trailing,
};
use vstd::prelude::*;

verus! {

/// What is to be resolved.
pub struct ResolveRequest {
    /// The working directory of the event.
    pub cwd: Option<String>,
    /// The workspace that is asked for.
    pub workspace_override: Option<String>,
    /// The project that is asked for.
    pub project_override: Option<String>,
    /// How a project is named where none is asked for.
    pub strategy: ProjectStrategy,
    /// Workspace and project of an event that says nothing.
    pub defaults: (WorkspaceId, ProjectId),
    /// The operator's home directory, which is no project's root.
    pub home_dir: Option<String>,
}

/// A repository root as git reports it.
pub struct RootFacts {
    /// The path.
    pub text: String,
    /// The bytes of the canonical path, where there is one.
    pub canonical: Option<Vec<u8>>,
}

/// A directory above the working directory, or that directory itself.
pub struct Ancestor {
    /// The path, as it is spelled in the working directory.
    pub text: String,
    /// The bytes of the canonical path, where there is one.
    pub canonical: Option<Vec<u8>>,
}

/// A project as it is stored.
pub struct ProjectRow {
    pub id: ProjectId,
    pub workspace_id: WorkspaceId,
    pub name: String,
    /// The root of the project's repository.
    pub repo_path: Option<String>,
}

/// A repository, by the working directory that it was set up with. The worktrees that
/// are linked to it belong to it too.
pub struct MainRepo {
    /// The last name in the path of its root.
    pub name: String,
    /// Its root.
    pub root: RootFacts,
}

/// What the file system and git say of a working directory.
pub struct CwdFacts {
    /// The last name in the path of the directory, where it has one.
    pub basename: Option<String>,
    /// The repository that the directory belongs to; none where it is in no repository,
    /// or in a bare one.
    pub main_repo: Option<MainRepo>,
    /// The root of the repository that the directory is in.
    pub discovered: Option<RootFacts>,
    /// The bytes of the directory's canonical path, where there is one.
    pub canonical: Option<Vec<u8>>,
    /// The directory and those above it, from the inside out.
    pub ancestors: Vec<Ancestor>,
}

impl ResolveRequest {
    /// The working directory, where there is one that is not empty.
    pub open spec fn directory(&self) -> Option<Seq<char>> {
        match self.cwd {
            Some(cwd) => if cwd@.len() > 0 {
                Some(cwd@)
            } else {
                None
            },
            None => None,
        }
    }

    /// The slot of the cache.
    pub open spec fn key(&self) -> KeyView {
        cache_key(
            self.directory(),
            opt_view(self.workspace_override),
            opt_view(self.project_override),
            self.strategy,
        )
    }

    /// Nothing is asked for, and nothing can be derived.
    pub open spec fn says_nothing(&self) -> bool {
        self.directory() is None && self.project_override is None
    }

    /// The workspace that the project is in.
    pub open spec fn workspace_name(&self) -> Seq<char> {
        match self.workspace_override {
            Some(name) => name@,
            None => DEFAULT_WORKSPACE_NAME@,
        }
    }
}

/// The slot of the cache for a resolution; what is absent counts as empty.
pub open spec fn cache_key(
    cwd: Option<Seq<char>>,
    workspace_override: Option<Seq<char>>,
    project_override: Option<Seq<char>>,
    strategy: ProjectStrategy,
) -> KeyView {
    (or_empty(cwd), or_empty(workspace_override), or_empty(project_override), strategy.name())
}

/// The slot of the cache for a resolution. Lookup, insertion and eviction all use
/// it, so that they agree on the slot.
pub fn cache_key_for(
    cwd_norm: Option<&str>,
    workspace_override: Option<&str>,
    project_override: Option<&str>,
    project_strategy: ProjectStrategy,
) -> (r: ProjectCacheKey)
    ensures
        key_view(r) == cache_key(
            opt_str_view(cwd_norm),
            opt_str_view(workspace_override),
            opt_str_view(project_override),
            project_strategy,
        ),
{
    (
        text_or_empty(cwd_norm),
        text_or_empty(workspace_override),
        text_or_empty(project_override),
        project_strategy.as_str().to_string(),
    )
}

/// `i` is the first of the `ancestors` whose canonical path is `canonical`.
pub open spec fn is_first_with_canonical(
    ancestors: Seq<Ancestor>,
    canonical: Seq<u8>,
    i: int,
) -> bool {
    &&& 0 <= i < ancestors.len()
    &&& opt_bytes(ancestors[i].canonical) == Some(canonical)
    &&& forall|j: int|
        0 <= j < i ==> opt_bytes(#[trigger] ancestors[j].canonical) != Some(canonical)
}

/// The path of `root`, spelled as in the working directory where the canonical paths
/// prove that the directory is inside `root`.
pub open spec fn root_in_namespace(facts: CwdFacts, root: RootFacts) -> Seq<char> {
    match root.canonical {
        Some(canonical) => if exists|i: int|
            is_first_with_canonical(facts.ancestors@, canonical@, i) {
            facts.ancestors@[choose|i: int|
                is_first_with_canonical(facts.ancestors@, canonical@, i)].text@
        } else {
            root.text@
        },
        None => root.text@,
    }
}

/// The working directory is `root`: their canonical paths are the same, or, where
/// one of them has none, their texts, but for slashes at the end.
pub open spec fn is_root(cwd: Seq<char>, facts: CwdFacts, root: RootFacts) -> bool {
    match (facts.canonical, root.canonical) {
        (Some(a), Some(b)) => a@ == b@,
        _ => without_trailing(cwd, '/') == without_trailing(root.text@, '/'),
    }
}

/// The repository root that is recorded for a project which is not named after it:
/// the root, only where the working directory is that root.
pub open spec fn path_from_directory(cwd: Seq<char>, facts: CwdFacts) -> Option<Seq<char>> {
    match facts.discovered {
        Some(root) => if is_root(cwd, facts, root) {
            Some(root_in_namespace(facts, root))
        } else {
            None
        },
        None => None,
    }
}

/// The repository that the strategy names a project after: only the repo-root strategy
/// names one after a repository.
pub open spec fn named_after(facts: CwdFacts, strategy: ProjectStrategy) -> Option<MainRepo> {
    match strategy {
        ProjectStrategy::RepoRoot => facts.main_repo,
        ProjectStrategy::Basename => None,
    }
}

/// The name that the strategy gives the project of a directory: that of its repository,
/// or else that of the directory.
pub open spec fn derived_name(facts: CwdFacts, strategy: ProjectStrategy) -> Option<Seq<char>> {
    match named_after(facts, strategy) {
        Some(repo) => Some(repo.name@),
        None => opt_view(facts.basename),
    }
}

/// The repository root that is recorded for a project that is named by the strategy.
pub open spec fn derived_path(
    cwd: Seq<char>,
    facts: CwdFacts,
    strategy: ProjectStrategy,
) -> Option<Seq<char>> {
    match named_after(facts, strategy) {
        Some(repo) => Some(root_in_namespace(facts, repo.root)),
        None => path_from_directory(cwd, facts),
    }
}

/// Name and repository root of the project that a directory belongs to.
pub open spec fn derived_project(
    cwd: Seq<char>,
    facts: CwdFacts,
    strategy: ProjectStrategy,
) -> Option<(Seq<char>, Option<Seq<char>>)> {
    match derived_name(facts, strategy) {
        Some(name) => Some((name, derived_path(cwd, facts, strategy))),
        None => None,
    }
}

/// The repository root that is recorded for a project that was asked for.
pub open spec fn path_for_override(
    cwd: Seq<char>,
    project: Seq<char>,
    strategy: ProjectStrategy,
    facts: CwdFacts,
) -> Option<Seq<char>> {
    match derived_project(cwd, facts, strategy) {
        Some((name, Some(root))) if strategy == ProjectStrategy::RepoRoot && name == project => {
            Some(root)
        },
        _ => path_from_directory(cwd, facts),
    }
}

/// The path of `root`, spelled as in the working directory where the canonical paths
/// prove that the directory is inside `root`.
pub fn repo_root_in_cwd_namespace(facts: &CwdFacts, root: &RootFacts) -> (r: String)
    ensures
        r@ == root_in_namespace(*facts, *root),
{
    if let Some(canonical) = &root.canonical {
        let mut i: usize = 0;
        while i < facts.ancestors.len()
            invariant
                i <= facts.ancestors@.len(),
                root.canonical == Some(*canonical),
                forall|j: int|
                    0 <= j < i ==> opt_bytes(#[trigger] facts.ancestors@[j].canonical) != Some(
                        canonical@,
                    ),
            decreases facts.ancestors.len() - i,
        {
            if let Some(bytes) = &facts.ancestors[i].canonical {
                if same_bytes(bytes, canonical) {
                    proof {
                        let all = facts.ancestors@;
                        assert(is_first_with_canonical(all, canonical@, i as int));
                        let k = choose|k: int| is_first_with_canonical(all, canonical@, k);
                        if k < i {
                            assert(opt_bytes(all[k].canonical) != Some(canonical@));
                        } else if i < k {
                            assert(opt_bytes(all[i as int].canonical) != Some(canonical@));
                        }
                    }
                    return facts.ancestors[i].text.clone();
                }
            }
            i = i + 1;
        }
        proof {
            assert forall|k: int| !is_first_with_canonical(facts.ancestors@, canonical@, k) by {
                if 0 <= k < facts.ancestors@.len() {
                    assert(opt_bytes(facts.ancestors@[k].canonical) != Some(canonical@));
                }
            }
        }
    }
    root.text.clone()
}

/// Whether the working directory is `root`.
pub fn cwd_is_repo_root(cwd: &str, facts: &CwdFacts, root: &RootFacts) -> (r: bool)
    ensures
        r == is_root(cwd@, *facts, *root),
{
    if let (Some(a), Some(b)) = (&facts.canonical, &root.canonical) {
        return same_bytes(a, b);
    }
    strip_trailing(cwd, '/') == strip_trailing(root.text.as_str(), '/')
}

/// The repository root to record for a project that is not named after it.
pub fn repo_path_from_cwd(cwd: &str, facts: &CwdFacts) -> (r: Option<String>)
    ensures
        opt_view(r) == path_from_directory(cwd@, *facts),
{
    match &facts.discovered {
        Some(root) => if cwd_is_repo_root(cwd, facts, root) {
            Some(repo_root_in_cwd_namespace(facts, root))
        } else {
            None
        },
        None => None,
    }
}

/// The name that the strategy gives the project of a directory, and the root of the
/// repository that it is named after, where it is named after one.
pub fn derive_project_name(facts: &CwdFacts, strategy: ProjectStrategy) -> (r: Option<
    (&str, Option<&RootFacts>),
>)
    ensures
        match r {
            Some((name, root)) => derived_name(*facts, strategy) == Some(name@) && match root {
                Some(root) => named_after(*facts, strategy) matches Some(repo) && repo.root
                    == *root,
                None => named_after(*facts, strategy) is None,
            },
            None => derived_name(*facts, strategy) is None,
        },
{
    if let (ProjectStrategy::RepoRoot, Some(repo)) = (strategy, &facts.main_repo) {
        return Some((repo.name.as_str(), Some(&repo.root)));
    }
    match &facts.basename {
        Some(name) => Some((name.as_str(), None)),
        None => None,
    }
}

/// Name and repository root of the project that a directory belongs to.
pub fn derive_project_from_cwd(
    cwd: &str,
    strategy: ProjectStrategy,
    facts: &CwdFacts,
) -> (r: Option<(String, Option<String>)>)
    ensures
        match r {
            Some((name, path)) => derived_project(cwd@, *facts, strategy) == Some(
                (name@, opt_view(path)),
            ),
            None => derived_project(cwd@, *facts, strategy) is None,
        },
{
    match derive_project_name(facts, strategy) {
        Some((name, root)) => {
            let path = match root {
                Some(root) => Some(repo_root_in_cwd_namespace(facts, root)),
                None => repo_path_from_cwd(cwd, facts),
            };
            Some((name.to_string(), path))
        },
        None => None,
    }
}

/// The repository root to record for a project that was asked for.
pub fn repo_path_from_project_override(
    cwd: &str,
    project: &str,
    strategy: ProjectStrategy,
    facts: &CwdFacts,
) -> (r: Option<String>)
    ensures
        opt_view(r) == path_for_override(cwd@, project@, strategy, *facts),
{
    if let ProjectStrategy::RepoRoot = strategy {
        if let Some((name, Some(root))) = derive_project_from_cwd(cwd, strategy, facts) {
            if same_text(name.as_str(), project) {
                return Some(root);
            }
        }
    }
    repo_path_from_cwd(cwd, facts)
}

/// `.` or `..` stands from `i` to `j` as a segment of the path.
pub open spec fn is_dot_segment(path: Seq<char>, i: int, j: int) -> bool {
    &&& 0 <= i < j <= path.len()
    &&& i == 0 || path[i - 1] == '/'
    &&& j == path.len() || path[j] == '/'
    &&& path[i] == '.'
    &&& j == i + 1 || j == i + 2 && path[i + 1] == '.'
}

/// `.` or `..` is a segment of the path.
pub open spec fn has_dot_segment(path: Seq<char>) -> bool {
    exists|i: int, j: int| is_dot_segment(path, i, j)
}

/// The root holds directories: it is not empty, does not end with a slash, and is not
/// the operator's home directory.
pub open spec fn is_usable_root(root: Seq<char>, home_dir: Option<Seq<char>>) -> bool {
    &&& root.len() > 0
    &&& root.last() != '/'
    &&& home_dir != Some(root)
}

/// The directory is `root` or below it, letter for letter.
pub open spec fn is_inside(cwd: Seq<char>, root: Seq<char>) -> bool {
    ||| cwd == root
    ||| root.len() < cwd.len() && cwd.take(root.len() as int) == root && cwd[root.len() as int]
        == '/'
}

/// The project is one of the workspace, and its root holds the directory.
pub open spec fn holds_directory(
    row: ProjectRow,
    workspace: WorkspaceId,
    cwd: Seq<char>,
    home_dir: Option<Seq<char>>,
) -> bool {
    &&& row.workspace_id == workspace
    &&& !has_dot_segment(cwd)
    &&& row.repo_path matches Some(root) && is_usable_root(root@, home_dir) && is_inside(cwd, root@)
}

/// The row at `i` is the project whose root is the longest that holds the directory,
/// the first one where there are several.
pub open spec fn is_parent(
    rows: Seq<ProjectRow>,
    workspace: WorkspaceId,
    cwd: Seq<char>,
    home_dir: Option<Seq<char>>,
    i: int,
) -> bool {
    &&& 0 <= i < rows.len()
    &&& holds_directory(rows[i], workspace, cwd, home_dir)
    &&& forall|j: int|
        0 <= j < rows.len() && holds_directory(#[trigger] rows[j], workspace, cwd, home_dir) ==> {
            let (own, other) = (rows[i].repo_path->0@.len(), rows[j].repo_path->0@.len());
            other < own || other == own && i <= j
        }
}

/// The project whose root is the longest that holds the directory.
pub open spec fn parent(
    rows: Seq<ProjectRow>,
    workspace: WorkspaceId,
    cwd: Seq<char>,
    home_dir: Option<Seq<char>>,
) -> Option<ProjectRow> {
    if exists|i: int| is_parent(rows, workspace, cwd, home_dir, i) {
        Some(rows[choose|i: int| is_parent(rows, workspace, cwd, home_dir, i)])
    } else {
        None
    }
}

/// The parent is the row that holds the directory by the longest root.
proof fn lemma_parent(
    rows: Seq<ProjectRow>,
    workspace: WorkspaceId,
    cwd: Seq<char>,
    home_dir: Option<Seq<char>>,
)
    ensures
        parent(rows, workspace, cwd, home_dir) matches Some(row) ==> exists|i: int| #[trigger]
            is_parent(rows, workspace, cwd, home_dir, i) && rows[i] == row,
{
    let i = choose|i: int| is_parent(rows, workspace, cwd, home_dir, i);
    assert(parent(rows, workspace, cwd, home_dir) is Some ==> is_parent(
        rows,
        workspace,
        cwd,
        home_dir,
        i,
    ));
}

/// Whether `.` or `..` is a segment of the path.
fn has_dots(path: &str) -> (r: bool)
    ensures
        r == has_dot_segment(path@),
{
    // How many dots the segment has so far, and whether it has anything else.
    let mut dots: usize = 0;
    let mut other = false;
    let mut i: usize = 0;
    let count: usize = path.unicode_len();
    let ghost mut start: int = 0;
    for c in it: path.chars()
        invariant
            it.seq() == path@,
            i == it.index(),
            path@.len() == count,
            0 <= start <= i,
            start == 0 || path@[start - 1] == '/',
            forall|k: int| start <= k < i ==> #[trigger] path@[k] != '/',
            !other ==> dots == i - start && forall|k: int|
                start <= k < i ==> #[trigger] path@[k] == '.',
            other ==> exists|k: int| start <= k < i && #[trigger] path@[k] != '.',
            dots <= i,
            forall|a: int, b: int| is_dot_segment(path@, a, b) ==> a >= start,
    {
        if c == '/' {
            if !other && (dots == 1 || dots == 2) {
                assert(is_dot_segment(path@, start, i as int));
                return true;
            }
            proof {
                assert forall|a: int, b: int| is_dot_segment(path@, a, b) implies a >= i + 1 by {
                    if a <= i {
                        lemma_dot_segment_is_whole(path@, start, i as int, a, b);
                    }
                }
                start = i + 1;
            }
            dots = 0;
            other = false;
        } else if c == '.' {
            dots = dots + 1;
        } else {
            other = true;
        }
        i = i + 1;
    }
    let r = !other && (dots == 1 || dots == 2);
    proof {
        if r {
            assert(is_dot_segment(path@, start, i as int));
        } else if has_dot_segment(path@) {
            let (a, b) = choose|a: int, b: int| is_dot_segment(path@, a, b);
            lemma_dot_segment_is_whole(path@, start, i as int, a, b);
        }
    }
    r
}

/// A dot segment that starts within the segment from `start` to `end` is all of it.
proof fn lemma_dot_segment_is_whole(path: Seq<char>, start: int, end: int, a: int, b: int)
    requires
        0 <= start <= end <= path.len(),
        end == path.len() || path[end] == '/',
        forall|k: int| start <= k < end ==> #[trigger] path[k] != '/',
        is_dot_segment(path, a, b),
        start <= a <= end,
    ensures
        a == start,
        b == end,
        forall|k: int| start <= k < end ==> #[trigger] path[k] == '.',
        end - start == 1 || end - start == 2,
{
    if a > start {
        assert(path[a - 1] != '/');
    }
    if b < end {
        assert(path[b] != '/');
    }
    if end < b {
        assert(path[end] == '.');
    }
    assert forall|k: int| start <= k < end implies #[trigger] path[k] == '.' by {
        assert(k == a || k == a + 1);
    }
}

/// Whether the directory is `root` or below it.
fn inside(cwd: &str, root: &str) -> (r: bool)
    ensures
        r == is_inside(cwd@, root@),
{
    let (n, m): (usize, usize) = (root.unicode_len(), cwd.unicode_len());
    if n < m {
        proof {
            assert(cwd@.subrange(0, n as int) == cwd@.take(n as int));
        }
        same_text(cwd.substring_char(0, n), root) && cwd.get_char(n) == '/'
    } else {
        same_text(cwd, root)
    }
}

/// Whether the project's root holds the directory, which has no dot segment.
fn root_holds(
    row: &ProjectRow,
    workspace: WorkspaceId,
    cwd: &str,
    home_dir: Option<&str>,
) -> (r: bool)
    requires
        !has_dot_segment(cwd@),
    ensures
        r == holds_directory(*row, workspace, cwd@, opt_str_view(home_dir)),
{
    match &row.repo_path {
        Some(root) => {
            let n: usize = root.as_str().unicode_len();
            let is_home = match home_dir {
                Some(home) => same_text(home, root.as_str()),
                None => false,
            };
            row.workspace_id == workspace && n > 0 && root.as_str().get_char(n - 1) != '/'
                && !is_home && inside(cwd, root.as_str())
        },
        None => false,
    }
}

/// The project that a directory is in: the one of the workspace whose repository root
/// is the longest that holds the directory. A directory that is not spelled out, with
/// `.` or `..` in it, is in none.
pub fn find_project_by_cwd_prefix<'a>(
    rows: &'a Vec<ProjectRow>,
    workspace: WorkspaceId,
    cwd: &str,
    home_dir: Option<&str>,
) -> (r: Option<&'a ProjectRow>)
    ensures
        match r {
            Some(row) => parent(rows@, workspace, cwd@, opt_str_view(home_dir)) == Some(*row),
            None => parent(rows@, workspace, cwd@, opt_str_view(home_dir)) is None,
        },
{
    if has_dots(cwd) {
        return None;
    }
    let ghost home = opt_str_view(home_dir);
    let mut best: Option<usize> = None;
    let mut i: usize = 0;
    while i < rows.len()
        invariant
            i <= rows@.len(),
            home == opt_str_view(home_dir),
            !has_dot_segment(cwd@),
            match best {
                Some(b) => b < i && is_parent(
                    rows@.take(i as int),
                    workspace,
                    cwd@,
                    home,
                    b as int,
                ),
                None => forall|j: int|
                    0 <= j < i ==> !holds_directory(
                        #[trigger] rows@[j],
                        workspace,
                        cwd@,
                        home,
                    ),
            },
        decreases rows.len() - i,
    {
        let ghost seen = rows@.take(i as int);
        let ghost next = rows@.take(i + 1);
        proof {
            assert(next == seen.push(rows@[i as int]));
        }
        if root_holds(&rows[i], workspace, cwd, home_dir) {
            let longer = match best {
                Some(b) => root_len(&rows[b]) < root_len(&rows[i]),
                None => true,
            };
            if longer {
                proof {
                    assert(next[i as int] == rows@[i as int]);
                    assert forall|j: int|
                        0 <= j < next.len() && holds_directory(
                            #[trigger] next[j],
                            workspace,
                            cwd@,
                            home,
                        ) implies next[j].repo_path->0@.len() < next[i as int].repo_path->0@.len()
                        || j == i by {
                        if j < i {
                            assert(next[j] == seen[j] && next[j] == rows@[j]);
                        }
                    }
                    assert(is_parent(next, workspace, cwd@, home, i as int));
                }
                best = Some(i);
            }
        }
        proof {
            if let Some(b) = best {
                if b < i {
                    assert forall|j: int|
                        0 <= j < next.len() && holds_directory(
                            #[trigger] next[j],
                            workspace,
                            cwd@,
                            home,
                        ) implies next[j].repo_path->0@.len() < next[b as int].repo_path->0@.len()
                        || next[j].repo_path->0@.len() == next[b as int].repo_path->0@.len() && b
                        <= j by {
                        assert(next[b as int] == seen[b as int]);
                        if j < i {
                            assert(next[j] == seen[j]);
                        }
                    }
                    assert(next[b as int] == seen[b as int]);
                    assert(is_parent(next, workspace, cwd@, home, b as int));
                }
            }
        }
        i = i + 1;
    }
    proof {
        assert(rows@.take(i as int) == rows@);
    }
    match best {
        Some(b) => {
            proof {
                let k = choose|k: int| is_parent(rows@, workspace, cwd@, home, k);
                assert(holds_directory(rows@[k], workspace, cwd@, home));
                assert(holds_directory(rows@[b as int], workspace, cwd@, home));
                assert(k == b);
            }
            Some(&rows[b])
        },
        None => None,
    }
}

/// How long the root of a project is.
fn root_len(row: &ProjectRow) -> (r: usize)
    ensures
        row.repo_path matches Some(root) ==> r == root@.len(),
{
    match &row.repo_path {
        Some(root) => root.as_str().unicode_len(),
        None => 0,
    }
}

/// The message for a reply to something that was not asked.
pub const UNEXPECTED_REPLY: &'static str = "reply does not answer what was asked";

/// What a resolver asks for, or what it has found.
pub enum ResolveAction {
    /// Say what the file system and git know of the directory.
    ReadCwd { cwd: String },
    /// Hand back the workspace of this name, created if need be.
    GetOrCreateWorkspace { name: String },
    /// Hand back the projects of the workspace.
    ListProjects { workspace: WorkspaceId },
    /// Hand back the project of this name, created if need be.
    GetOrCreateProject { workspace: WorkspaceId, name: String, repo_path: Option<String> },
    /// The event belongs to these; `publish` says whether they become the project
    /// that is active now.
    Done { ids: (WorkspaceId, ProjectId), publish: bool },
    /// The resolution failed.
    Failed { message: String },
}

/// The view of a [`ResolveAction`].
pub enum ResolveActionView {
    ReadCwd { cwd: Seq<char> },
    GetOrCreateWorkspace { name: Seq<char> },
    ListProjects { workspace: WorkspaceId },
    GetOrCreateProject {
        workspace: WorkspaceId,
        name: Seq<char>,
        repo_path: Option<Seq<char>>,
    },
    Done { ids: (WorkspaceId, ProjectId), publish: bool },
    Failed { message: Seq<char> },
}

impl View for ResolveAction {
    type V = ResolveActionView;

    open spec fn view(&self) -> ResolveActionView {
        match *self {
            ResolveAction::ReadCwd { cwd } => ResolveActionView::ReadCwd { cwd: cwd@ },
            ResolveAction::GetOrCreateWorkspace { name } => {
                ResolveActionView::GetOrCreateWorkspace { name: name@ }
            },
            ResolveAction::ListProjects { workspace } => {
                ResolveActionView::ListProjects { workspace }
            },
            ResolveAction::GetOrCreateProject { workspace, name, repo_path } => {
                ResolveActionView::GetOrCreateProject {
                    workspace,
                    name: name@,
                    repo_path: opt_view(repo_path),
                }
            },
            ResolveAction::Done { ids, publish } => ResolveActionView::Done { ids, publish },
            ResolveAction::Failed { message } => ResolveActionView::Failed { message: message@ },
        }
    }
}

/// A reply to what a resolver asked for; an error is handed back as its text.
pub enum ResolveReply {
    Facts(CwdFacts),
    Workspace(Result<WorkspaceId, String>),
    Projects(Result<Vec<ProjectRow>, String>),
    Project(Result<ProjectId, String>),
}

/// What a resolver waits for.
#[derive(Debug, Clone, Copy, PartialEq, Eq, Structural)]
pub enum ResolveStage {
    Facts,
    Workspace,
    Parent(WorkspaceId),
    Project(WorkspaceId),
    Finished,
}

/// A resolution under way.
pub struct Resolver {
    request: ResolveRequest,
    stage: ResolveStage,
    name: String,
    repo_path: Option<String>,
}

/// The view of a [`Resolver`].
pub struct ResolverView {
    /// What is to be resolved.
    pub request: ResolveRequest,
    /// What is waited for.
    pub stage: ResolveStage,
    /// The project's name, once it is known.
    pub name: Seq<char>,
    /// The project's repository root, once its name is known.
    pub repo_path: Option<Seq<char>>,
}

impl View for Resolver {
    type V = ResolverView;

    closed spec fn view(&self) -> ResolverView {
        ResolverView {
            request: self.request,
            stage: self.stage,
            name: self.name@,
            repo_path: opt_view(self.repo_path),
        }
    }
}

/// Name and repository root of the project that is resolved to, unless an existing
/// project holds the directory.
pub open spec fn planned(request: ResolveRequest, facts: CwdFacts) -> Option<
    (Seq<char>, Option<Seq<char>>),
> {
    match (request.project_override, request.directory()) {
        (Some(project), Some(cwd)) => Some(
            (project@, path_for_override(cwd, project@, request.strategy, facts)),
        ),
        (Some(project), None) => Some((project@, None)),
        (None, Some(cwd)) => derived_project(cwd, facts, request.strategy),
        (None, None) => None,
    }
}

/// What a resolution finds in the cache; one that says nothing does not look.
pub open spec fn cached(request: ResolveRequest, entries: Seq<EntryView>) -> Option<
    (WorkspaceId, ProjectId),
> {
    if request.says_nothing() {
        None
    } else {
        lookup(entries, request.key())
    }
}

/// The resolver of a request, and what it asks for first.
pub open spec fn started(request: ResolveRequest, entries: Seq<EntryView>) -> (
    ResolverView,
    ResolveActionView,
) {
    let finished = ResolverView {
        request,
        stage: ResolveStage::Finished,
        name: Seq::empty(),
        repo_path: None,
    };
    if request.says_nothing() {
        (finished, ResolveActionView::Done { ids: request.defaults, publish: false })
    } else {
        match (cached(request, entries), request.directory()) {
            (Some(ids), _) => (finished, ResolveActionView::Done { ids, publish: true }),
            (None, Some(cwd)) => (
                ResolverView { stage: ResolveStage::Facts, ..finished },
                ResolveActionView::ReadCwd { cwd },
            ),
            (None, None) => (
                ResolverView {
                    stage: ResolveStage::Workspace,
                    name: or_empty(opt_view(request.project_override)),
                    ..finished
                },
                ResolveActionView::GetOrCreateWorkspace { name: request.workspace_name() },
            ),
        }
    }
}

/// The entries of the cache once a resolution was started.
pub open spec fn entries_after_start(request: ResolveRequest, entries: Seq<EntryView>) -> Seq<
    EntryView,
> {
    match cached(request, entries) {
        Some(ids) => used_last(entries, request.key(), ids),
        None => entries,
    }
}

/// The resolver after a reply, and what it asks for next.
pub open spec fn stepped(v: ResolverView, reply: ResolveReply) -> (
    ResolverView,
    ResolveActionView,
) {
    let finished = ResolverView { stage: ResolveStage::Finished, ..v };
    match (v.stage, reply) {
        (ResolveStage::Facts, ResolveReply::Facts(facts)) => match planned(v.request, facts) {
            Some((name, repo_path)) => (
                ResolverView { stage: ResolveStage::Workspace, name, repo_path, ..v },
                ResolveActionView::GetOrCreateWorkspace { name: v.request.workspace_name() },
            ),
            None => (finished, ResolveActionView::Done { ids: v.request.defaults, publish: true }),
        },
        (ResolveStage::Workspace, ResolveReply::Workspace(Ok(workspace))) => match (
            v.request.project_override,
            v.request.directory(),
        ) {
            (None, Some(_)) => (
                ResolverView { stage: ResolveStage::Parent(workspace), ..v },
                ResolveActionView::ListProjects { workspace },
            ),
            _ => creating(v, workspace),
        },
        (ResolveStage::Workspace, ResolveReply::Workspace(Err(e))) => (
            finished,
            ResolveActionView::Failed { message: "get_or_create_workspace: "@ + e@ },
        ),
        (ResolveStage::Parent(workspace), ResolveReply::Projects(Ok(rows))) => match parent_of(
            v.request,
            rows@,
            workspace,
        ) {
            Some(row) => if row.name@ != v.name {
                (finished, ResolveActionView::Done { ids: (workspace, row.id), publish: true })
            } else {
                creating(v, workspace)
            },
            None => creating(v, workspace),
        },
        (ResolveStage::Parent(_), ResolveReply::Projects(Err(e))) => (
            finished,
            ResolveActionView::Failed { message: "find_project_by_cwd_prefix: "@ + e@ },
        ),
        (ResolveStage::Project(workspace), ResolveReply::Project(Ok(project))) => (
            finished,
            ResolveActionView::Done { ids: (workspace, project), publish: true },
        ),
        (ResolveStage::Project(_), ResolveReply::Project(Err(e))) => (
            finished,
            ResolveActionView::Failed { message: "get_or_create_project: "@ + e@ },
        ),
        _ => (finished, ResolveActionView::Failed { message: UNEXPECTED_REPLY@ }),
    }
}

/// The existing project that the directory of a request is in.
pub open spec fn parent_of(
    request: ResolveRequest,
    rows: Seq<ProjectRow>,
    workspace: WorkspaceId,
) -> Option<ProjectRow> {
    match request.directory() {
        Some(cwd) => parent(rows, workspace, cwd, opt_view(request.home_dir)),
        None => None,
    }
}

/// The resolver asks for its project in `workspace`.
pub open spec fn creating(v: ResolverView, workspace: WorkspaceId) -> (
    ResolverView,
    ResolveActionView,
) {
    (
        ResolverView { stage: ResolveStage::Project(workspace), ..v },
        ResolveActionView::GetOrCreateProject {
            workspace,
            name: v.name,
            repo_path: v.repo_path,
        },
    )
}

/// The entries of the cache after a reply: what was found in the store is kept, and
/// nothing else.
pub open spec fn entries_after_step(
    v: ResolverView,
    reply: ResolveReply,
    entries: Seq<EntryView>,
    max: nat,
) -> Seq<EntryView> {
    match (v.stage, stepped(v, reply).1) {
        (ResolveStage::Facts, _) => entries,
        (_, ResolveActionView::Done { ids, .. }) => inserted(entries, v.request.key(), ids, max),
        _ => entries,
    }
}

impl Resolver {
    /// Starts a resolution: it may be done at once, by the cache or by the defaults.
    pub fn start(request: ResolveRequest, cache: &mut ProjectCacheStore) -> (r: (
        Resolver,
        ResolveAction,
    ))
        requires
            old(cache).wf(),
        ensures
            final(cache).wf(),
            final(cache).max() == old(cache).max(),
            (r.0@, r.1@) == started(request, old(cache)@),
            final(cache)@ == entries_after_start(request, old(cache)@),
    {
        let mut resolver = Resolver {
            request,
            stage: ResolveStage::Finished,
            name: String::new(),
            repo_path: None,
        };
        let action = resolver.restart(cache);
        (resolver, action)
    }

    /// Starts the resolution of the same request over.
    pub fn restart(&mut self, cache: &mut ProjectCacheStore) -> (r: ResolveAction)
        requires
            old(cache).wf(),
        ensures
            final(cache).wf(),
            final(cache).max() == old(cache).max(),
            (final(self)@, r@) == started(old(self)@.request, old(cache)@),
            final(cache)@ == entries_after_start(old(self)@.request, old(cache)@),
    {
        self.stage = ResolveStage::Finished;
        self.name = String::new();
        self.repo_path = None;
        let cwd = match directory(&self.request.cwd) {
            Some(cwd) => Some(cwd.to_string()),
            None => None,
        };
        if cwd.is_none() && self.request.project_override.is_none() {
            return ResolveAction::Done { ids: self.request.defaults, publish: false };
        }
        let key = self.cache_key();
        if let Some(ids) = cache.get(&key) {
            return ResolveAction::Done { ids, publish: true };
        }
        match cwd {
            Some(cwd) => {
                self.stage = ResolveStage::Facts;
                ResolveAction::ReadCwd { cwd }
            },
            None => {
                self.stage = ResolveStage::Workspace;
                self.name = text_or_empty(opt_str(&self.request.project_override));
                ResolveAction::GetOrCreateWorkspace { name: self.workspace_name() }
            },
        }
    }

    /// Takes the request's slot out of the cache.
    pub fn evict(&self, cache: &mut ProjectCacheStore)
        requires
            old(cache).wf(),
        ensures
            final(cache).wf(),
            final(cache).max() == old(cache).max(),
            final(cache)@ == without_key(old(cache)@, self@.request.key()),
    {
        cache.remove(&self.cache_key());
    }

    /// Takes a reply, and says what is to be done next.
    pub fn step(&mut self, cache: &mut ProjectCacheStore, reply: ResolveReply) -> (r: ResolveAction)
        requires
            old(cache).wf(),
        ensures
            final(cache).wf(),
            final(cache).max() == old(cache).max(),
            (final(self)@, r@) == stepped(old(self)@, reply),
            final(cache)@ == entries_after_step(old(self)@, reply, old(cache)@, old(cache).max()),
    {
        let stage = self.stage;
        self.stage = ResolveStage::Finished;
        match (stage, reply) {
            (ResolveStage::Facts, ResolveReply::Facts(facts)) => self.after_facts(&facts),
            (ResolveStage::Workspace, ResolveReply::Workspace(Ok(workspace))) => {
                self.after_workspace(workspace)
            },
            (ResolveStage::Workspace, ResolveReply::Workspace(Err(e))) => ResolveAction::Failed {
                message: labelled("get_or_create_workspace: ", e.as_str()),
            },
            (ResolveStage::Parent(workspace), ResolveReply::Projects(Ok(rows))) => {
                match self.foreign_parent(&rows, workspace) {
                    Some(project) => self.keep(cache, (workspace, project)),
                    None => self.create(workspace),
                }
            },
            (ResolveStage::Parent(_), ResolveReply::Projects(Err(e))) => ResolveAction::Failed {
                message: labelled("find_project_by_cwd_prefix: ", e.as_str()),
            },
            (ResolveStage::Project(workspace), ResolveReply::Project(Ok(project))) => {
                self.keep(cache, (workspace, project))
            },
            (ResolveStage::Project(_), ResolveReply::Project(Err(e))) => ResolveAction::Failed {
                message: labelled("get_or_create_project: ", e.as_str()),
            },
            _ => ResolveAction::Failed { message: UNEXPECTED_REPLY.to_string() },
        }
    }

    /// The slot of the cache.
    fn cache_key(&self) -> (r: ProjectCacheKey)
        ensures
            key_view(r) == self@.request.key(),
    {
        cache_key_for(
            directory(&self.request.cwd),
            opt_str(&self.request.workspace_override),
            opt_str(&self.request.project_override),
            self.request.strategy,
        )
    }

    /// The workspace that the project is in.
    fn workspace_name(&self) -> (r: String)
        ensures
            r@ == self@.request.workspace_name(),
    {
        match &self.request.workspace_override {
            Some(name) => name.clone(),
            None => DEFAULT_WORKSPACE_NAME.to_string(),
        }
    }

    fn after_facts(&mut self, facts: &CwdFacts) -> (r: ResolveAction)
        requires
            old(self)@.stage == ResolveStage::Finished,
        ensures
            (final(self)@, r@) == stepped(
                (ResolverView { stage: ResolveStage::Facts, ..old(self)@ }),
                ResolveReply::Facts(*facts),
            ),
    {
        let cwd = match directory(&self.request.cwd) {
            Some(cwd) => Some(cwd.to_string()),
            None => None,
        };
        let plan = match (&self.request.project_override, cwd) {
            (Some(project), Some(cwd)) => {
                let path = repo_path_from_project_override(
                    cwd.as_str(),
                    project.as_str(),
                    self.request.strategy,
                    facts,
                );
                Some((project.clone(), path))
            },
            (Some(project), None) => Some((project.clone(), None)),
            (None, Some(cwd)) => derive_project_from_cwd(
                cwd.as_str(),
                self.request.strategy,
                facts,
            ),
            (None, None) => None,
        };
        match plan {
            Some((name, repo_path)) => {
                self.stage = ResolveStage::Workspace;
                self.name = name;
                self.repo_path = repo_path;
                ResolveAction::GetOrCreateWorkspace { name: self.workspace_name() }
            },
            None => ResolveAction::Done { ids: self.request.defaults, publish: true },
        }
    }

    fn after_workspace(&mut self, workspace: WorkspaceId) -> (r: ResolveAction)
        requires
            old(self)@.stage == ResolveStage::Finished,
        ensures
            (final(self)@, r@) == stepped(
                (ResolverView { stage: ResolveStage::Workspace, ..old(self)@ }),
                ResolveReply::Workspace(Ok(workspace)),
            ),
    {
        if self.request.project_override.is_none() {
            if directory(&self.request.cwd).is_some() {
                self.stage = ResolveStage::Parent(workspace);
                return ResolveAction::ListProjects { workspace };
            }
        }
        self.create(workspace)
    }

    /// The existing project that the directory is in, where it has another name.
    fn foreign_parent(&self, rows: &Vec<ProjectRow>, workspace: WorkspaceId) -> (r: Option<
        ProjectId,
    >)
        ensures
            r == (match parent_of(self@.request, rows@, workspace) {
                Some(row) => if row.name@ != self@.name {
                    Some(row.id)
                } else {
                    None
                },
                None => None,
            }),
    {
        match directory(&self.request.cwd) {
            Some(cwd) => match find_project_by_cwd_prefix(
                rows,
                workspace,
                cwd,
                opt_str(&self.request.home_dir),
            ) {
                Some(row) => if row.name == self.name {
                    None
                } else {
                    Some(row.id)
                },
                None => None,
            },
            None => None,
        }
    }

    fn create(&mut self, workspace: WorkspaceId) -> (r: ResolveAction)
        ensures
            (final(self)@, r@) == creating(old(self)@, workspace),
    {
        self.stage = ResolveStage::Project(workspace);
        ResolveAction::GetOrCreateProject {
            workspace,
            name: self.name.clone(),
            repo_path: opt_copy(&self.repo_path),
        }
    }

    fn keep(&self, cache: &mut ProjectCacheStore, ids: (WorkspaceId, ProjectId)) -> (r:
        ResolveAction)
        requires
            old(cache).wf(),
        ensures
            final(cache).wf(),
            final(cache).max() == old(cache).max(),
            r@ == (ResolveActionView::Done { ids, publish: true }),
            final(cache)@ == inserted(old(cache)@, self@.request.key(), ids, old(cache).max()),
    {
        cache.insert(self.cache_key(), ids);
        ResolveAction::Done { ids, publish: true }
    }
}

/// The working directory, where there is one that is not empty.
pub fn directory(cwd: &Option<String>) -> (r: Option<&str>)
    ensures
        opt_str_view(r) == (match *cwd {
            Some(c) => if c@.len() > 0 {
                Some(c@)
            } else {
                None
            },
            None => None,
        }),
{
    match cwd {
        Some(c) => if c.as_str().is_empty() {
            None
        } else {
            Some(c.as_str())
        },
        None => None,
    }
}

/// An event without a directory and without a project that it asks for belongs to
/// the defaults, which do not become the active project; the cache is not touched.
pub proof fn silent_event_falls_back_unpublished(
    request: ResolveRequest,
    entries: Seq<EntryView>,
)
    requires
        request.directory() is None,
        request.project_override is None,
    ensures
        started(request, entries).1 == (ResolveActionView::Done {
            ids: request.defaults,
            publish: false,
        }),
        entries_after_start(request, entries) == entries,
{
}

/// A directory that no name can be derived from belongs to the defaults, which become
/// the active project and are not cached.
pub proof fn nameless_directory_falls_back_published(
    v: ResolverView,
    facts: CwdFacts,
    entries: Seq<EntryView>,
    max: nat,
)
    requires
        v.stage == ResolveStage::Facts,
        v.request.project_override is None,
        derived_name(facts, v.request.strategy) is None,
    ensures
        stepped(v, ResolveReply::Facts(facts)).1 == (ResolveActionView::Done {
            ids: v.request.defaults,
            publish: true,
        }),
        entries_after_step(v, ResolveReply::Facts(facts), entries, max) == entries,
{
}

/// What was resolved before is answered from the cache at once, and is published
/// again.
pub proof fn cached_event_is_answered_at_once(
    request: ResolveRequest,
    entries: Seq<EntryView>,
    ids: (WorkspaceId, ProjectId),
)
    requires
        !request.says_nothing(),
        lookup(entries, request.key()) == Some(ids),
    ensures
        started(request, entries).1 == (ResolveActionView::Done { ids, publish: true }),
{
}

/// What a resolution finds in the store, the next resolution of the same request
/// finds in the cache.
pub proof fn second_resolution_hits_the_cache(
    v: ResolverView,
    reply: ResolveReply,
    entries: Seq<EntryView>,
    max: nat,
)
    requires
        !v.request.says_nothing(),
        v.stage != ResolveStage::Facts,
        stepped(v, reply).1 is Done,
        crate::project_cache::unique_keys(entries),
        entries.len() <= max,
        max >= 1,
    ensures
        started(v.request, entries_after_step(v, reply, entries, max)).1 == stepped(v, reply).1,
{
    let ids = stepped(v, reply).1->Done_ids;
    crate::project_cache::inserted_key_is_found(entries, v.request.key(), ids, max);
}

/// The resolver has the name of the project that was asked for, once it has a name.
pub open spec fn named_as_asked(v: ResolverView) -> bool {
    match (v.request.project_override, v.stage) {
        (Some(project), ResolveStage::Workspace) => v.name == project@,
        (Some(_), ResolveStage::Parent(_)) => false,
        (Some(project), ResolveStage::Project(_)) => v.name == project@,
        _ => true,
    }
}

/// A project that is asked for wins: no other project is looked for by directory,
/// and what is asked of the store is the project of that name. This holds from the
/// start of a resolution and through every reply.
pub proof fn project_override_wins(
    request: ResolveRequest,
    entries: Seq<EntryView>,
    v: ResolverView,
    reply: ResolveReply,
)
    requires
        named_as_asked(v),
    ensures
        named_as_asked(started(request, entries).0),
        started(request, entries).0.request == request,
        named_as_asked(stepped(v, reply).0),
        stepped(v, reply).0.request == v.request,
        v.request.project_override is Some ==> !(stepped(v, reply).1 is ListProjects),
        stepped(v, reply).1 matches ResolveActionView::GetOrCreateProject { name, .. } ==> (
        v.request.project_override matches Some(project) ==> name == project@),
{
}

/// A directory inside an existing project belongs to that project, whatever its own
/// name would be: nothing is created.
pub proof fn existing_parent_is_used(
    v: ResolverView,
    workspace: WorkspaceId,
    rows: Vec<ProjectRow>,
    row: ProjectRow,
)
    requires
        v.stage == ResolveStage::Parent(workspace),
        parent_of(v.request, rows@, workspace) == Some(row),
        row.name@ != v.name,
    ensures
        stepped(v, ResolveReply::Projects(Ok(rows))).1 == (ResolveActionView::Done {
            ids: (workspace, row.id),
            publish: true,
        }),
{
}

/// A directory is given to an existing project of another name only where that project
/// is one of the resolved workspace and its repository root holds the directory: the
/// root is neither empty nor `/`, does not end with a slash, is not the home directory,
/// and is the directory or above it, letter for letter; the directory has no `.` or
/// `..` in it; and no project of the workspace has a longer such root.
pub proof fn only_the_longest_root_takes_a_directory(
    v: ResolverView,
    workspace: WorkspaceId,
    rows: Vec<ProjectRow>,
    ids: (WorkspaceId, ProjectId),
    publish: bool,
)
    requires
        v.stage == ResolveStage::Parent(workspace),
        stepped(v, ResolveReply::Projects(Ok(rows))).1 == (ResolveActionView::Done {
            ids,
            publish,
        }),
    ensures
        v.request.directory() is Some,
        exists|i: int| #[trigger]
            is_parent(
                rows@,
                workspace,
                v.request.directory()->0,
                opt_view(v.request.home_dir),
                i,
            ) && ids == (workspace, rows@[i].id) && rows@[i].workspace_id == workspace
                && rows@[i].name@ != v.name,
{
    lemma_parent(rows@, workspace, v.request.directory()->0, opt_view(v.request.home_dir));
}

/// A sibling whose name only starts like the root's is not inside the root.
pub proof fn sibling_is_not_inside(root: Seq<char>, c: char, more: Seq<char>)
    requires
        c != '/',
    ensures
        !is_inside(root.push(c) + more, root),
{
    let cwd = root.push(c) + more;
    assert(cwd.take(root.len() as int) == root);
    assert(cwd[root.len() as int] == c);
}

/// A store in which nothing is purged, moved or renamed: asked for a name, it always
/// hands back the same workspace or project.
pub struct StableStore {
    pub workspace: spec_fn(Seq<char>) -> WorkspaceId,
    pub project: spec_fn(WorkspaceId, Seq<char>) -> ProjectId,
    pub projects: spec_fn(WorkspaceId) -> Vec<ProjectRow>,
}

/// What the store replies to a resolver; `facts` are those of the directory.
pub open spec fn store_reply(
    action: ResolveActionView,
    store: StableStore,
    facts: CwdFacts,
) -> ResolveReply {
    match action {
        ResolveActionView::GetOrCreateWorkspace { name } => ResolveReply::Workspace(
            Ok((store.workspace)(name)),
        ),
        ResolveActionView::ListProjects { workspace } => ResolveReply::Projects(
            Ok((store.projects)(workspace)),
        ),
        ResolveActionView::GetOrCreateProject { workspace, name, .. } => ResolveReply::Project(
            Ok((store.project)(workspace, name)),
        ),
        _ => ResolveReply::Facts(facts),
    }
}

/// What a resolver comes to when the store replies to all that it asks: workspace and
/// project, and the entries of the cache.
pub open spec fn run_from(
    v: ResolverView,
    action: ResolveActionView,
    entries: Seq<EntryView>,
    max: nat,
    store: StableStore,
    facts: CwdFacts,
) -> (Option<(WorkspaceId, ProjectId)>, Seq<EntryView>)
    decreases replies_left(v.stage),
{
    match action {
        ResolveActionView::Done { ids, .. } => (Some(ids), entries),
        ResolveActionView::Failed { .. } => (None, entries),
        _ => if v.stage == ResolveStage::Finished {
            (None, entries)
        } else {
            let reply = store_reply(action, store, facts);
            run_from(
                stepped(v, reply).0,
                stepped(v, reply).1,
                entries_after_step(v, reply, entries, max),
                max,
                store,
                facts,
            )
        },
    }
}

/// What the resolution of a request comes to when the store replies to all it asks.
pub open spec fn resolution(
    request: ResolveRequest,
    entries: Seq<EntryView>,
    max: nat,
    store: StableStore,
    facts: CwdFacts,
) -> (Option<(WorkspaceId, ProjectId)>, Seq<EntryView>) {
    run_from(
        started(request, entries).0,
        started(request, entries).1,
        entries_after_start(request, entries),
        max,
        store,
        facts,
    )
}

/// The workspace and the project that the store has for two names; `blank` is the
/// workspace that is meant where the first is empty.
pub open spec fn named_pair(
    store: StableStore,
    blank: Seq<char>,
    workspace: Seq<char>,
    project: Seq<char>,
) -> (WorkspaceId, ProjectId) {
    let id = (store.workspace)(
        if workspace.len() == 0 {
            blank
        } else {
            workspace
        },
    );
    (id, (store.project)(id, project))
}

/// The entry of the cache is what the store has, where it was asked for by name.
pub open spec fn entry_agrees(entry: EntryView, store: StableStore, blank: Seq<char>) -> bool {
    let (key, ids) = entry;
    let (cwd, workspace, project, strategy) = key;
    project.len() > 0 ==> ids == named_pair(store, blank, workspace, project)
}

/// Every entry of the cache that was asked for by name is what the store has.
pub open spec fn cache_agrees(
    entries: Seq<EntryView>,
    store: StableStore,
    blank: Seq<char>,
) -> bool {
    forall|i: int| 0 <= i < entries.len() ==> entry_agrees(#[trigger] entries[i], store, blank)
}

/// The overrides of the request say in the cache what they say to the store: a project
/// is asked for by a name that is not empty, and an empty workspace name, which shares
/// its slots with none at all, stands for `blank`.
pub open spec fn overrides_are_plain(request: ResolveRequest, blank: Seq<char>) -> bool {
    &&& or_empty(opt_view(request.workspace_override)).len() == 0 ==> request.workspace_name()
        == blank
    &&& request.project_override matches Some(name) ==> name@.len() > 0
}

/// Resolutions keep the cache in agreement with the store.
pub proof fn resolution_keeps_agreement(
    request: ResolveRequest,
    entries: Seq<EntryView>,
    max: nat,
    store: StableStore,
    blank: Seq<char>,
    facts: CwdFacts,
)
    requires
        cache_agrees(entries, store, blank),
        overrides_are_plain(request, blank),
    ensures
        cache_agrees(resolution(request, entries, max, store, facts).1, store, blank),
{
    let (v, action) = started(request, entries);
    let key = request.key();
    let after = entries_after_start(request, entries);
    if let Some(ids) = cached(request, entries) {
        crate::project_cache::lemma_lookup_is_an_entry(entries, key);
        assert(entry_agrees((key, ids), store, blank));
        crate::project_cache::lemma_used_last_entries(entries, key, ids);
        assert forall|i: int| 0 <= i < after.len() implies entry_agrees(
            #[trigger] after[i],
            store,
            blank,
        ) by {
            if after[i] != (key, ids) {
                assert(entries.contains(after[i]));
            }
        }
    }
    lemma_run_keeps_agreement(v, action, after, max, store, blank, facts);
}

/// The resolver asks for what its request names.
spec fn asks_as_named(v: ResolverView, action: ResolveActionView, store: StableStore) -> bool {
    let id = (store.workspace)(v.request.workspace_name());
    &&& v.stage == ResolveStage::Workspace ==> action == (
    ResolveActionView::GetOrCreateWorkspace { name: v.request.workspace_name() })
    &&& v.stage matches ResolveStage::Parent(w) ==> w == id && action == (
    ResolveActionView::ListProjects { workspace: id })
    &&& v.stage matches ResolveStage::Project(w) ==> w == id && action == (
    ResolveActionView::GetOrCreateProject { workspace: id, name: v.name, repo_path: v.repo_path })
    &&& v.stage == ResolveStage::Facts ==> action is ReadCwd
    &&& v.stage == ResolveStage::Finished ==> action is Done
}

proof fn lemma_run_keeps_agreement(
    v: ResolverView,
    action: ResolveActionView,
    entries: Seq<EntryView>,
    max: nat,
    store: StableStore,
    blank: Seq<char>,
    facts: CwdFacts,
)
    requires
        cache_agrees(entries, store, blank),
        overrides_are_plain(v.request, blank),
        named_as_asked(v),
        asks_as_named(v, action, store),
    ensures
        cache_agrees(run_from(v, action, entries, max, store, facts).1, store, blank),
    decreases replies_left(v.stage),
{
    if v.stage != ResolveStage::Finished {
        let reply = store_reply(action, store, facts);
        let (next, asked) = stepped(v, reply);
        let after = entries_after_step(v, reply, entries, max);
        let key = v.request.key();
        if v.stage != ResolveStage::Facts && asked is Done {
            let ids = asked->Done_ids;
            if v.request.project_override is Some {
                assert(v.stage is Project);
            }
            assert(entry_agrees((key, ids), store, blank));
            crate::project_cache::lemma_inserted_entries(entries, key, ids, max);
            assert forall|i: int| 0 <= i < after.len() implies entry_agrees(
                #[trigger] after[i],
                store,
                blank,
            ) by {
                if after[i] != (key, ids) {
                    assert(entries.contains(after[i]));
                }
            }
        }
        if !(action is Done) && !(action is Failed) {
            lemma_run_keeps_agreement(next, asked, after, max, store, blank, facts);
        }
    }
}

/// A project that is asked for by name is the project of that name in the workspace of
/// the name that is asked for, or in the default one, whatever directory and strategy
/// the event comes with.
pub proof fn override_names_the_pair(
    request: ResolveRequest,
    entries: Seq<EntryView>,
    max: nat,
    store: StableStore,
    blank: Seq<char>,
    facts: CwdFacts,
)
    requires
        cache_agrees(entries, store, blank),
        overrides_are_plain(request, blank),
        request.project_override is Some,
    ensures
        ({
            let workspace = (store.workspace)(request.workspace_name());
            resolution(request, entries, max, store, facts).0 == Some(
                (workspace, (store.project)(workspace, (request.project_override->0)@)),
            )
        }),
{
    let key = request.key();
    reveal_with_fuel(run_from, 5);
    if let Some(ids) = cached(request, entries) {
        crate::project_cache::lemma_lookup_is_an_entry(entries, key);
        assert(entry_agrees((key, ids), store, blank));
    }
}

/// Two resolutions with the same overrides, one after the other, end in the same
/// workspace and the same project, whatever directories and strategies they come with.
pub proof fn matching_overrides_collapse(
    first: ResolveRequest,
    second: ResolveRequest,
    entries: Seq<EntryView>,
    max: nat,
    store: StableStore,
    blank: Seq<char>,
    facts: (CwdFacts, CwdFacts),
)
    requires
        cache_agrees(entries, store, blank),
        overrides_are_plain(first, blank),
        first.project_override is Some,
        opt_view(first.workspace_override) == opt_view(second.workspace_override),
        opt_view(first.project_override) == opt_view(second.project_override),
    ensures
        ({
            let (ids, after) = resolution(first, entries, max, store, facts.0);
            &&& ids is Some
            &&& resolution(second, after, max, store, facts.1).0 == ids
        }),
{
    override_names_the_pair(first, entries, max, store, blank, facts.0);
    resolution_keeps_agreement(first, entries, max, store, blank, facts.0);
    let after = resolution(first, entries, max, store, facts.0).1;
    override_names_the_pair(second, after, max, store, blank, facts.1);
}

/// A directory that was not resolved before, and for which no project is asked for, has
/// `name` derived for it.
pub open spec fn is_derived(
    request: ResolveRequest,
    entries: Seq<EntryView>,
    facts: CwdFacts,
    name: Seq<char>,
) -> bool {
    &&& request.project_override is None
    &&& request.directory() is Some
    &&& lookup(entries, request.key()) is None
    &&& derived_name(facts, request.strategy) == Some(name)
}

/// The existing project that the directory of a request is in, in the workspace that
/// the request asks for.
pub open spec fn stored_parent(request: ResolveRequest, store: StableStore) -> Option<ProjectRow> {
    let workspace = (store.workspace)(request.workspace_name());
    parent_of(request, (store.projects)(workspace)@, workspace)
}

/// The project of a new directory is the one of its derived name in the workspace that
/// is asked for, unless an existing project of another name holds the directory.
pub proof fn derived_name_decides_the_project(
    request: ResolveRequest,
    entries: Seq<EntryView>,
    max: nat,
    store: StableStore,
    facts: CwdFacts,
    name: Seq<char>,
)
    requires
        is_derived(request, entries, facts, name),
    ensures
        ({
            let workspace = (store.workspace)(request.workspace_name());
            let own = (workspace, (store.project)(workspace, name));
            let ids = match stored_parent(request, store) {
                Some(row) => if row.name@ != name {
                    (workspace, row.id)
                } else {
                    own
                },
                None => own,
            };
            resolution(request, entries, max, store, facts) == (
                Some(ids),
                inserted(entries, request.key(), ids, max),
            )
        }),
{
    reveal_with_fuel(run_from, 6);
}

/// A new directory that ends in another project than that of its derived name ends in
/// an existing project of the workspace that is asked for, whose repository root holds
/// the directory, and no other project of the workspace has a longer such root.
pub proof fn only_a_parent_takes_a_new_directory(
    request: ResolveRequest,
    entries: Seq<EntryView>,
    max: nat,
    store: StableStore,
    facts: CwdFacts,
    name: Seq<char>,
    ids: (WorkspaceId, ProjectId),
)
    requires
        is_derived(request, entries, facts, name),
        resolution(request, entries, max, store, facts).0 == Some(ids),
        ids.1 != (store.project)(ids.0, name),
    ensures
        ids.0 == (store.workspace)(request.workspace_name()),
        ({
            let rows = (store.projects)(ids.0)@;
            let (cwd, home) = (request.directory()->0, opt_view(request.home_dir));
            exists|i: int| #[trigger]
                is_parent(rows, ids.0, cwd, home, i) && ids.1 == rows[i].id
        }),
{
    derived_name_decides_the_project(request, entries, max, store, facts, name);
    let rows = (store.projects)(ids.0)@;
    let (cwd, home) = (request.directory()->0, opt_view(request.home_dir));
    lemma_parent(rows, ids.0, cwd, home);
    assert(stored_parent(request, store) == parent(rows, ids.0, cwd, home));
}

/// Two directories for which the same name is derived, such as a repository and its
/// worktree under the repo-root strategy, end in the same workspace and the same
/// project, unless an existing project of another name holds one of them.
pub proof fn equal_names_end_in_one_project(
    first: ResolveRequest,
    second: ResolveRequest,
    entries: (Seq<EntryView>, Seq<EntryView>),
    max: nat,
    store: (StableStore, StableStore),
    facts: (CwdFacts, CwdFacts),
    name: Seq<char>,
)
    requires
        is_derived(first, entries.0, facts.0, name),
        is_derived(second, entries.1, facts.1, name),
        first.workspace_name() == second.workspace_name(),
        // Projects may be added in between; what has a name keeps it.
        store.0.workspace == store.1.workspace,
        store.0.project == store.1.project,
        stored_parent(first, store.0) matches Some(row) ==> row.name@ == name,
        stored_parent(second, store.1) matches Some(row) ==> row.name@ == name,
    ensures
        resolution(first, entries.0, max, store.0, facts.0).0 is Some,
        resolution(second, entries.1, max, store.1, facts.1).0 == resolution(
            first,
            entries.0,
            max,
            store.0,
            facts.0,
        ).0,
{
    derived_name_decides_the_project(first, entries.0, max, store.0, facts.0, name);
    derived_name_decides_the_project(second, entries.1, max, store.1, facts.1, name);
}

/// Two directories for which different names are derived, such as a repository and its
/// worktree under the basename strategy, end in different projects where the store has
/// a project of its own for each of the names, unless an existing project of another
/// name holds one of them.
pub proof fn different_names_end_in_different_projects(
    first: ResolveRequest,
    second: ResolveRequest,
    entries: (Seq<EntryView>, Seq<EntryView>),
    max: nat,
    store: (StableStore, StableStore),
    facts: (CwdFacts, CwdFacts),
    names: (Seq<char>, Seq<char>),
)
    requires
        is_derived(first, entries.0, facts.0, names.0),
        is_derived(second, entries.1, facts.1, names.1),
        ({
            let a = (store.0.workspace)(first.workspace_name());
            let b = (store.1.workspace)(second.workspace_name());
            (store.0.project)(a, names.0) != (store.1.project)(b, names.1)
        }),
        stored_parent(first, store.0) matches Some(row) ==> row.name@ == names.0,
        stored_parent(second, store.1) matches Some(row) ==> row.name@ == names.1,
    ensures
        resolution(first, entries.0, max, store.0, facts.0).0 is Some,
        resolution(second, entries.1, max, store.1, facts.1).0 is Some,
        (resolution(first, entries.0, max, store.0, facts.0).0->0).1 != (resolution(
            second,
            entries.1,
            max,
            store.1,
            facts.1,
        ).0->0).1,
{
    derived_name_decides_the_project(first, entries.0, max, store.0, facts.0, names.0);
    derived_name_decides_the_project(second, entries.1, max, store.1, facts.1, names.1);
}

/// A resolution adds no slot but its own.
proof fn lemma_other_slots_stay_empty(
    request: ResolveRequest,
    other: ResolveRequest,
    entries: Seq<EntryView>,
    max: nat,
    store: StableStore,
    facts: CwdFacts,
    name: Seq<char>,
)
    requires
        is_derived(request, entries, facts, name),
        lookup(entries, other.key()) is None,
        other.key() != request.key(),
    ensures
        lookup(resolution(request, entries, max, store, facts).1, other.key()) is None,
{
    derived_name_decides_the_project(request, entries, max, store, facts, name);
    let (found, after) = resolution(request, entries, max, store, facts);
    let ids = found->0;
    crate::project_cache::lemma_inserted_entries(entries, request.key(), ids, max);
    assert forall|i: int| 0 <= i < after.len() implies #[trigger] after[i].0 != other.key() by {
        if after[i] != (request.key(), ids) {
            let k = choose|k: int| 0 <= k < entries.len() && entries[k] == after[i];
            assert(entries[k].0 != other.key());
        }
    }
}

/// The directory of a request is new: it is resolved for the first time, and no
/// existing project of another name than `name` holds it.
pub open spec fn is_new(
    request: ResolveRequest,
    entries: Seq<EntryView>,
    store: StableStore,
    name: Seq<char>,
) -> bool {
    &&& request.project_override is None
    &&& request.directory() is Some
    &&& lookup(entries, request.key()) is None
    &&& stored_parent(request, store) matches Some(row) ==> row.name@ == name
}

/// A worktree is resolved to the project of its main repository under the repo-root
/// strategy, and only under it: of three resolutions in turn, the main directory and
/// the worktree by the repo-root strategy, then the worktree by its own name, the
/// first two end in the same workspace and project, and the third ends in another
/// project, where the store has a project of its own for each of the two names.
pub proof fn worktree_collapses_only_by_repo_root(
    main: ResolveRequest,
    worktree: ResolveRequest,
    by_name: ResolveRequest,
    entries: Seq<EntryView>,
    max: nat,
    store: StableStore,
    listed: (StableStore, StableStore),
    facts: (CwdFacts, CwdFacts),
    repo: Seq<char>,
    own: Seq<char>,
)
    requires
        // The three requests.
        main.strategy == ProjectStrategy::RepoRoot,
        worktree.strategy == ProjectStrategy::RepoRoot,
        by_name.strategy == ProjectStrategy::Basename,
        main.directory() != worktree.directory(),
        by_name.directory() == worktree.directory(),
        main.workspace_name() == worktree.workspace_name(),
        main.workspace_name() == by_name.workspace_name(),
        // The two directories belong to one repository.
        facts.0.main_repo matches Some(r) && r.name@ == repo,
        facts.1.main_repo matches Some(r) && r.name@ == repo,
        opt_view(facts.1.basename) == Some(own),
        // Projects are added in between; what has a name keeps it.
        store.workspace == listed.0.workspace && store.project == listed.0.project,
        store.workspace == listed.1.workspace && store.project == listed.1.project,
        is_new(main, entries, store, repo),
        is_new(worktree, entries, listed.0, repo),
        is_new(by_name, entries, listed.1, own),
        ({
            let workspace = (store.workspace)(main.workspace_name());
            (store.project)(workspace, repo) != (store.project)(workspace, own)
        }),
    ensures
        ({
            let (first, after_first) = resolution(main, entries, max, store, facts.0);
            let (second, after_second) = resolution(
                worktree,
                after_first,
                max,
                listed.0,
                facts.1,
            );
            let (third, _) = resolution(by_name, after_second, max, listed.1, facts.1);
            let workspace = (store.workspace)(main.workspace_name());
            &&& first == Some((workspace, (store.project)(workspace, repo)))
            &&& second == first
            &&& third == Some((workspace, (store.project)(workspace, own)))
            &&& third != first
        }),
{
    if worktree.strategy.name() == by_name.strategy.name() {
        crate::payload::strategy_names_are_distinct(worktree.strategy, by_name.strategy);
    }
    assert(main.key().0 != worktree.key().0);
    derived_name_decides_the_project(main, entries, max, store, facts.0, repo);
    lemma_other_slots_stay_empty(main, worktree, entries, max, store, facts.0, repo);
    lemma_other_slots_stay_empty(main, by_name, entries, max, store, facts.0, repo);
    let after_first = resolution(main, entries, max, store, facts.0).1;
    derived_name_decides_the_project(worktree, after_first, max, listed.0, facts.1, repo);
    lemma_other_slots_stay_empty(
        worktree,
        by_name,
        after_first,
        max,
        listed.0,
        facts.1,
        repo,
    );
    let after_second = resolution(worktree, after_first, max, listed.0, facts.1).1;
    derived_name_decides_the_project(by_name, after_second, max, listed.1, facts.1, own);
}

/// How many replies a resolver still needs at most.
pub open spec fn replies_left(stage: ResolveStage) -> nat {
    match stage {
        ResolveStage::Facts => 4,
        ResolveStage::Workspace => 3,
        ResolveStage::Parent(_) => 2,
        ResolveStage::Project(_) => 1,
        ResolveStage::Finished => 0,
    }
}

/// A resolution ends: every reply brings it nearer to its end, and it is at its end
/// exactly when it says so.
pub proof fn resolution_ends(
    request: ResolveRequest,
    entries: Seq<EntryView>,
    v: ResolverView,
    reply: ResolveReply,
)
    ensures
        replies_left(started(request, entries).0.stage) <= 4,
        v.stage != ResolveStage::Finished ==> replies_left(stepped(v, reply).0.stage)
            < replies_left(v.stage),
        stepped(v, reply).0.stage == ResolveStage::Finished <==> (stepped(v, reply).1 is Done
            || stepped(v, reply).1 is Failed),
        started(request, entries).0.stage == ResolveStage::Finished <==> started(
            request,
            entries,
        ).1 is Done,
{
}

/// Two resolutions share a slot exactly when directory, overrides and strategy are
/// the same, an absent one counting as empty. So one directory with and without an
/// override, or under two strategies, has two slots.
pub proof fn slots_are_shared_only_by_equals(
    cwd: (Option<Seq<char>>, Option<Seq<char>>),
    workspace: (Option<Seq<char>>, Option<Seq<char>>),
    project: (Option<Seq<char>>, Option<Seq<char>>),
    strategy: (ProjectStrategy, ProjectStrategy),
)
    ensures
        cache_key(cwd.0, workspace.0, project.0, strategy.0) == cache_key(
            cwd.1,
            workspace.1,
            project.1,
            strategy.1,
        ) <==> or_empty(cwd.0) == or_empty(cwd.1) && or_empty(workspace.0) == or_empty(workspace.1)
            && or_empty(project.0) == or_empty(project.1) && strategy.0 == strategy.1,
{
    if strategy.0.name() == strategy.1.name() {
        crate::payload::strategy_names_are_distinct(strategy.0, strategy.1);
    }
}

/// Name and repository root of the project that a resolver asks the store for, when the
/// store replies to all that it asks; nothing where it does not ask for one.
pub open spec fn asked_from(
    v: ResolverView,
    action: ResolveActionView,
    store: StableStore,
    facts: CwdFacts,
) -> Option<(Seq<char>, Option<Seq<char>>)>
    decreases replies_left(v.stage),
{
    match action {
        ResolveActionView::GetOrCreateProject { name, repo_path, .. } => Some((name, repo_path)),
        ResolveActionView::Done { .. } => None,
        ResolveActionView::Failed { .. } => None,
        _ => if v.stage == ResolveStage::Finished {
            None
        } else {
            let reply = store_reply(action, store, facts);
            asked_from(stepped(v, reply).0, stepped(v, reply).1, store, facts)
        },
    }
}

/// `path` is how the working directory spells the path of `root`: the first of the
/// directory and those above it that is the same directory as the root, or else the
/// path that git reports.
pub open spec fn is_spelling(path: Seq<char>, facts: CwdFacts, root: RootFacts) -> bool {
    let above = facts.ancestors@;
    &&& forall|i: int|
        root.canonical is Some && #[trigger] is_first_with_canonical(
            above,
            root.canonical->0@,
            i,
        ) ==> path == above[i].text@
    &&& (root.canonical is Some ==> forall|i: int|
        0 <= i < above.len() ==> opt_bytes(#[trigger] above[i].canonical) != opt_bytes(
            root.canonical,
        )) ==> path == root.text@
}

/// The root that is recorded is spelled as in the directory.
proof fn lemma_root_is_spelled(facts: CwdFacts, root: RootFacts)
    ensures
        is_spelling(root_in_namespace(facts, root), facts, root),
{
    let above = facts.ancestors@;
    if let Some(bytes) = root.canonical {
        let canonical = bytes@;
        let k = choose|k: int| is_first_with_canonical(above, canonical, k);
        assert forall|i: int| #[trigger] is_first_with_canonical(above, canonical, i) implies i
            == k by {
            if k < i {
                assert(opt_bytes(above[k].canonical) != Some(canonical));
            } else if i < k {
                assert(opt_bytes(above[i].canonical) != Some(canonical));
            }
        }
    }
}

/// The root that is recorded for the project of a directory is the root of a repository
/// that the directory belongs to, spelled as in the directory. Under the basename
/// strategy it is recorded only where the directory is that root; under the repo-root
/// strategy the root of the directory's main repository is recorded, too, where the
/// project has the name of that repository. With no repository round the directory
/// nothing is recorded, so that no directory that an agent merely worked in swallows
/// the projects beneath it.
pub proof fn only_a_repository_root_is_recorded(
    request: ResolveRequest,
    entries: Seq<EntryView>,
    store: StableStore,
    facts: CwdFacts,
    cwd: Seq<char>,
    name: Seq<char>,
    path: Option<Seq<char>>,
)
    requires
        request.directory() == Some(cwd),
        asked_from(
            started(request, entries).0,
            started(request, entries).1,
            store,
            facts,
        ) == Some((name, path)),
    ensures
        path matches Some(p) ==> {
            ||| (facts.discovered matches Some(root) && is_root(cwd, facts, root) && is_spelling(
                p,
                facts,
                root,
            ))
            ||| (request.strategy == ProjectStrategy::RepoRoot && (
            facts.main_repo matches Some(repo) && name == repo.name@ && is_spelling(
                p,
                facts,
                repo.root,
            )))
        },
        request.strategy == ProjectStrategy::Basename ==> (path is Some <==> (
        facts.discovered matches Some(root) && is_root(cwd, facts, root))),
        facts.discovered is None && facts.main_repo is None ==> path is None,
{
    reveal_with_fuel(asked_from, 5);
    if let Some(root) = facts.discovered {
        lemma_root_is_spelled(facts, root);
    }
    if let Some(repo) = facts.main_repo {
        lemma_root_is_spelled(facts, repo.root);
    }
    assert(planned(request, facts) == Some((name, path)));
}

/// A whole resolution of a new directory: the workspace is the one asked for or the
/// default one, the project is the existing one that holds the directory, or the one
/// of the planned name, and the two are kept in the cache and published.
pub proof fn fresh_directory_is_resolved(
    request: ResolveRequest,
    entries: Seq<EntryView>,
    max: nat,
    facts: CwdFacts,
    workspace: WorkspaceId,
    rows: Vec<ProjectRow>,
    project: ProjectId,
)
    requires
        request.directory() is Some,
        request.project_override is None,
        lookup(entries, request.key()) is None,
        derived_name(facts, request.strategy) is Some,
    ensures
        ({
            let (v1, a1) = started(request, entries);
            let (v2, a2) = stepped(v1, ResolveReply::Facts(facts));
            let (v3, a3) = stepped(v2, ResolveReply::Workspace(Ok(workspace)));
            let (v4, a4) = stepped(v3, ResolveReply::Projects(Ok(rows)));
            let (v5, a5) = stepped(v4, ResolveReply::Project(Ok(project)));
            let (name, path) = derived_project(request.directory()->0, facts, request.strategy)->0;
            let found = parent_of(request, rows@, workspace);
            let held = found matches Some(row) && row.name@ != name;
            let ids = if held {
                (workspace, (found->0).id)
            } else {
                (workspace, project)
            };
            &&& a1 == ResolveActionView::ReadCwd { cwd: request.directory()->0 }
            &&& a2 == ResolveActionView::GetOrCreateWorkspace { name: request.workspace_name() }
            &&& a3 == ResolveActionView::ListProjects { workspace }
            &&& held ==> a4 == ResolveActionView::Done { ids, publish: true }
            &&& !held ==> a4 == ResolveActionView::GetOrCreateProject {
                workspace,
                name,
                repo_path: path,
            }
            &&& !held ==> a5 == ResolveActionView::Done { ids, publish: true }
            &&& held ==> entries_after_step(v3, ResolveReply::Projects(Ok(rows)), entries, max)
                == inserted(entries, request.key(), ids, max)
            &&& !held ==> entries_after_step(v4, ResolveReply::Project(Ok(project)), entries, max)
                == inserted(entries, request.key(), ids, max)
        }),
{
}

/// No part of the path between slashes is `.` or `..`.
pub open spec fn is_spelled_out(path: Seq<char>) -> bool {
    forall|i: int, j: int|
        0 <= i < j <= path.len() && (i == 0 || path[i - 1] == '/') && (j == path.len() || path[j]
            == '/') ==> #[trigger] path.subrange(i, j) != seq!['.'] && path.subrange(i, j) != seq![
            '.',
            '.',
        ]
}

proof fn lemma_spelled_out(path: Seq<char>)
    ensures
        is_spelled_out(path) <==> !has_dot_segment(path),
{
    if is_spelled_out(path) && has_dot_segment(path) {
        let (i, j) = choose|i: int, j: int| is_dot_segment(path, i, j);
        let part = path.subrange(i, j);
        if j == i + 1 {
            assert(part =~= seq!['.']);
        } else {
            assert(part =~= seq!['.', '.']);
        }
    }
    if !has_dot_segment(path) {
        assert forall|i: int, j: int|
            0 <= i < j <= path.len() && (i == 0 || path[i - 1] == '/') && (j == path.len()
                || path[j] == '/') implies #[trigger] path.subrange(i, j) != seq!['.']
            && path.subrange(i, j) != seq!['.', '.'] by {
            let part = path.subrange(i, j);
            assert(!is_dot_segment(path, i, j));
            if part == seq!['.'] {
                assert(part.len() == 1 && part[0] == path[i]);
            }
            if part == seq!['.', '.'] {
                assert(part.len() == 2 && part[0] == path[i] && part[1] == path[i + 1]);
            }
        }
    }
}

/// The project of the workspace has a root that is the directory or above it, letter
/// for letter. Only the home directory itself is no root; what lies below it may be one.
pub open spec fn takes(
    row: ProjectRow,
    workspace: WorkspaceId,
    cwd: Seq<char>,
    home_dir: Option<Seq<char>>,
) -> bool {
    &&& row.workspace_id == workspace
    &&& row.repo_path matches Some(root) && root@.len() > 0 && root@.last() != '/' && home_dir
        != Some(root@) && (cwd == root@ || (root@ + seq!['/']).is_prefix_of(cwd))
}

proof fn lemma_takes(
    row: ProjectRow,
    workspace: WorkspaceId,
    cwd: Seq<char>,
    home_dir: Option<Seq<char>>,
)
    requires
        is_spelled_out(cwd),
    ensures
        takes(row, workspace, cwd, home_dir) <==> holds_directory(row, workspace, cwd, home_dir),
{
    lemma_spelled_out(cwd);
    if let Some(root) = row.repo_path {
        let n = root@.len() as int;
        let below = root@ + seq!['/'];
        if below.is_prefix_of(cwd) {
            assert(cwd.take(n) =~= root@) by {
                assert forall|i: int| 0 <= i < n implies cwd[i] == root@[i] by {
                    assert(below[i] == cwd.subrange(0, below.len() as int)[i]);
                }
            }
            assert(below[n] == cwd.subrange(0, below.len() as int)[n]);
        }
        if n < cwd.len() && cwd.take(n) == root@ && cwd[n] == '/' {
            assert(below =~= cwd.subrange(0, n + 1)) by {
                assert forall|i: int| 0 <= i < n implies cwd[i] == root@[i] by {
                    assert(cwd.take(n)[i] == root@[i]);
                }
            }
        }
    }
}

/// A directory that is spelled out and that the root of a project of the workspace
/// holds is given to a project: to one with a root at least as long.
pub proof fn directory_below_a_root_has_a_parent(
    rows: Seq<ProjectRow>,
    workspace: WorkspaceId,
    cwd: Seq<char>,
    home_dir: Option<Seq<char>>,
    k: int,
)
    requires
        0 <= k < rows.len(),
        is_spelled_out(cwd),
        takes(rows[k], workspace, cwd, home_dir),
    ensures
        parent(rows, workspace, cwd, home_dir) matches Some(row) && row.repo_path is Some && (
        row.repo_path->0)@.len() >= (rows[k].repo_path->0)@.len(),
{
    lemma_takes(rows[k], workspace, cwd, home_dir);
    let best = lemma_best_row(rows, workspace, cwd, home_dir, k);
    assert(is_parent(rows, workspace, cwd, home_dir, best));
    lemma_parent(rows, workspace, cwd, home_dir);
    let row = parent(rows, workspace, cwd, home_dir)->0;
    let i = choose|i: int| #[trigger]
        is_parent(rows, workspace, cwd, home_dir, i) && rows[i] == row;
    assert(holds_directory(rows[k], workspace, cwd, home_dir));
}

/// Among the rows that hold the directory there is one with the longest root, the first
/// of its length.
proof fn lemma_best_row(
    rows: Seq<ProjectRow>,
    workspace: WorkspaceId,
    cwd: Seq<char>,
    home_dir: Option<Seq<char>>,
    k: int,
) -> (i: int)
    requires
        0 <= k < rows.len(),
        holds_directory(rows[k], workspace, cwd, home_dir),
    ensures
        is_parent(rows, workspace, cwd, home_dir, i),
    decreases cwd.len() - (rows[k].repo_path->0)@.len(), k,
{
    let own = (rows[k].repo_path->0)@.len();
    if is_parent(rows, workspace, cwd, home_dir, k) {
        k
    } else {
        let j = choose|j: int|
            0 <= j < rows.len() && holds_directory(#[trigger] rows[j], workspace, cwd, home_dir)
                && ({
                let other = rows[j].repo_path->0@.len();
                !(other < own || other == own && k <= j)
            });
        lemma_best_row(rows, workspace, cwd, home_dir, j)
    }
}

/// A project takes a directory only where its root holds it, and only the first of
/// those with the longest root does. A directory that is not spelled out is taken by
/// none.
pub proof fn only_a_root_takes_a_directory(
    rows: Seq<ProjectRow>,
    workspace: WorkspaceId,
    cwd: Seq<char>,
    home_dir: Option<Seq<char>>,
)
    ensures
        !is_spelled_out(cwd) ==> parent(rows, workspace, cwd, home_dir) is None,
        parent(rows, workspace, cwd, home_dir) matches Some(row) ==> takes(
            row,
            workspace,
            cwd,
            home_dir,
        ) && exists|i: int|
            0 <= i < rows.len() && #[trigger] rows[i] == row && forall|j: int|
                0 <= j < i && takes(#[trigger] rows[j], workspace, cwd, home_dir) ==> (
                rows[j].repo_path->0)@.len() < (row.repo_path->0)@.len(),
{
    lemma_spelled_out(cwd);
    lemma_parent(rows, workspace, cwd, home_dir);
    if let Some(row) = parent(rows, workspace, cwd, home_dir) {
        let i = choose|i: int| #[trigger]
            is_parent(rows, workspace, cwd, home_dir, i) && rows[i] == row;
        lemma_takes(row, workspace, cwd, home_dir);
        assert forall|j: int|
            0 <= j < i && takes(#[trigger] rows[j], workspace, cwd, home_dir) implies (
        rows[j].repo_path->0)@.len() < (row.repo_path->0)@.len() by {
            lemma_takes(rows[j], workspace, cwd, home_dir);
        }
        assert(rows[i] == row);
    }
}

/// What a request says is taken as it is: the directory where it is not empty, the
/// workspace by its name, or the one called `default`; and the slot of the cache tells
/// directories, overrides and strategies apart by their texts. The existing project that
/// holds the directory is looked for with the request's own home directory, and what is
/// found in the cache counts as used last.
pub proof fn request_is_taken_as_it_is(
    request: ResolveRequest,
    rows: Seq<ProjectRow>,
    workspace: WorkspaceId,
    entries: Seq<EntryView>,
)
    ensures
        request.directory() matches Some(cwd) ==> parent_of(request, rows, workspace) == parent(
            rows,
            workspace,
            cwd,
            match request.home_dir {
                Some(home) => Some(home@),
                None => None,
            },
        ),
        !request.says_nothing() && lookup(entries, request.key()) is Some ==> entries_after_start(
            request,
            entries,
        ) == used_last(entries, request.key(), lookup(entries, request.key())->0),
        request.says_nothing() || lookup(entries, request.key()) is None ==> entries_after_start(
            request,
            entries,
        ) == entries,
        request.cwd matches Some(cwd) && cwd@.len() > 0 ==> request.directory() == Some(
            (request.cwd->0)@,
        ) && request.key().0 == (request.cwd->0)@,
        request.cwd is None || (request.cwd->0)@.len() == 0 ==> request.directory() is None
            && request.key().0.len() == 0,
        request.workspace_override matches Some(name) ==> request.workspace_name() == name@
            && request.key().1 == name@,
        request.workspace_override is None ==> request.workspace_name() == "default"@
            && request.key().1.len() == 0,
        request.project_override matches Some(name) ==> request.key().2 == name@,
        request.project_override is None ==> request.key().2.len() == 0,
        request.strategy == ProjectStrategy::Basename ==> request.key().3 == "basename"@,
        request.strategy == ProjectStrategy::RepoRoot ==> request.key().3 == "repo-root"@,
        request.says_nothing() <==> (request.cwd is None || (request.cwd->0)@.len() == 0)
            && request.project_override is None,
{
}

/// The project of a directory is named after its main repository under the repo-root
/// strategy, and after the directory where there is no such repository or the strategy
/// is another one.
pub proof fn strategy_decides_the_name(facts: CwdFacts)
    ensures
        facts.main_repo matches Some(repo) ==> derived_name(facts, ProjectStrategy::RepoRoot)
            == Some(repo.name@),
        facts.main_repo is None ==> derived_name(facts, ProjectStrategy::RepoRoot) == derived_name(
            facts,
            ProjectStrategy::Basename,
        ),
        facts.basename matches Some(name) ==> derived_name(facts, ProjectStrategy::Basename)
            == Some(name@),
        facts.basename is None ==> derived_name(facts, ProjectStrategy::Basename) is None,
{
}

/// A directory is the root of a repository where the two have the same canonical path;
/// where one of them has none, where they have the same path but for slashes at the
/// end.
pub proof fn root_is_known_by_its_path(
    facts: CwdFacts,
    root: RootFacts,
    cwd: Seq<char>,
    path: Seq<char>,
)
    ensures
        facts.canonical is Some && root.canonical is Some ==> (is_root(cwd, facts, root) <==> (
        facts.canonical->0)@ == (root.canonical->0)@),
        // Where the two are compared by their texts.
        (facts.canonical is None || root.canonical is None) && (path.len() == 0 || path.last()
            != '/') && path.is_prefix_of(cwd) && (forall|i: int|
            path.len() <= i < cwd.len() ==> #[trigger] cwd[i] == '/') ==> (is_root(cwd, facts, root)
            <==> path.is_prefix_of(root.text@) && forall|i: int|
            path.len() <= i < root.text@.len() ==> #[trigger] root.text@[i] == '/'),
{
    let text = root.text@;
    crate::text::only_the_trailing_run_is_cut(cwd, '/');
    crate::text::only_the_trailing_run_is_cut(text, '/');
    let (a, b) = (without_trailing(cwd, '/'), without_trailing(text, '/'));
    if (facts.canonical is None || root.canonical is None) && (path.len() == 0 || path.last()
        != '/') && path.is_prefix_of(cwd) && (forall|i: int|
        path.len() <= i < cwd.len() ==> #[trigger] cwd[i] == '/') {
        lemma_cut_is(cwd, path);
        if path.is_prefix_of(text) && forall|i: int|
            path.len() <= i < text.len() ==> #[trigger] text[i] == '/' {
            lemma_cut_is(text, path);
        }
        if a == b {
            assert(text.take(b.len() as int) == path);
            assert(text.subrange(0, path.len() as int) == path);
        }
    }
}

/// A path without a slash at its end is what is left of it with slashes behind.
proof fn lemma_cut_is(whole: Seq<char>, path: Seq<char>)
    requires
        path.len() == 0 || path.last() != '/',
        path.is_prefix_of(whole),
        forall|i: int| path.len() <= i < whole.len() ==> #[trigger] whole[i] == '/',
    ensures
        without_trailing(whole, '/') == path,
{
    crate::text::only_the_trailing_run_is_cut(whole, '/');
    let n = without_trailing(whole, '/').len() as int;
    let m = path.len() as int;
    assert(whole.subrange(0, m) == path);
    if n < m {
        assert(whole[m - 1] == whole.subrange(0, m)[m - 1]);
    } else if n > m {
        assert(whole.take(n).last() == whole[n - 1]);
    }
    assert(whole.take(m) == whole.subrange(0, m));
}

/// The path of a root is recorded as the directory spells it: by the innermost of the
/// directory and those above it that is the same directory as the root; where none is,
/// as git reports it.
pub proof fn root_is_spelled_as_in_the_directory(facts: CwdFacts, root: RootFacts, i: int)
    ensures
        0 <= i < facts.ancestors@.len() && root.canonical is Some
            && facts.ancestors@[i].canonical is Some && (facts.ancestors@[i].canonical->0)@ == (
        root.canonical->0)@ && (forall|j: int|
            0 <= j < i && (#[trigger] facts.ancestors@[j]).canonical is Some ==> (
            facts.ancestors@[j].canonical->0)@ != (root.canonical->0)@) ==> root_in_namespace(
            facts,
            root,
        ) == facts.ancestors@[i].text@,
        root.canonical is None || (forall|j: int|
            0 <= j < facts.ancestors@.len() && (#[trigger] facts.ancestors@[j]).canonical is Some
                ==> (facts.ancestors@[j].canonical->0)@ != (root.canonical->0)@)
            ==> root_in_namespace(facts, root) == root.text@,
{
    let above = facts.ancestors@;
    lemma_root_is_spelled(facts, root);
    if let Some(bytes) = root.canonical {
        let canonical = bytes@;
        if 0 <= i < above.len() && above[i].canonical is Some && (above[i].canonical->0)@
            == canonical && (forall|j: int|
            0 <= j < i && (#[trigger] above[j]).canonical is Some ==> (above[j].canonical->0)@
                != canonical) {
            assert forall|j: int| 0 <= j < i implies opt_bytes(#[trigger] above[j].canonical)
                != Some(canonical) by {
                assert(above[j].canonical is Some ==> (above[j].canonical->0)@ != canonical);
            }
            assert(is_first_with_canonical(above, canonical, i));
        }
        if forall|j: int|
            0 <= j < above.len() && (#[trigger] above[j]).canonical is Some ==> (
            above[j].canonical->0)@ != canonical {
            assert forall|j: int| 0 <= j < above.len() implies opt_bytes(
                #[trigger] above[j].canonical,
            ) != opt_bytes(root.canonical) by {
                assert(above[j].canonical is Some ==> (above[j].canonical->0)@ != canonical);
            }
        }
    }
}

/// The root of the repository that a project is named after is recorded, and so is the
/// root of the repository round the directory where the directory is that root; nothing
/// else is. A project that is asked for by name counts as named after its repository
/// only where it has that name and the strategy is the repo-root one.
pub proof fn root_is_recorded_exactly_for_its_project(
    request: ResolveRequest,
    facts: CwdFacts,
    cwd: Seq<char>,
)
    requires
        request.directory() == Some(cwd),
    ensures
        planned(request, facts) is Some <==> request.project_override is Some || derived_name(
            facts,
            request.strategy,
        ) is Some,
        planned(request, facts) matches Some((name, path)) ==> {
            let after_repo = request.strategy == ProjectStrategy::RepoRoot
                && facts.main_repo is Some && (request.project_override matches Some(asked)
                ==> asked@ == ((facts.main_repo->0).name)@);
            let at_root = facts.discovered is Some && is_root(cwd, facts, facts.discovered->0);
            &&& request.project_override matches Some(asked) ==> name == asked@
            &&& request.project_override is None ==> Some(name) == derived_name(
                facts,
                request.strategy,
            )
            &&& after_repo ==> path == Some(root_in_namespace(facts, (facts.main_repo->0).root))
            &&& !after_repo && at_root ==> path == Some(
                root_in_namespace(facts, facts.discovered->0),
            )
            &&& !after_repo && !at_root ==> path is None
        },
{
}

/// A whole resolution of a project that is asked for: the workspace of the name that is
/// asked for, or the default one, then the project of that name in it, and nothing
/// else; the two are published and kept in the cache under the request's slot.
pub proof fn asked_project_is_resolved(
    request: ResolveRequest,
    entries: Seq<EntryView>,
    max: nat,
    facts: CwdFacts,
    workspace: WorkspaceId,
    project: ProjectId,
    asked: Seq<char>,
)
    requires
        request.project_override matches Some(name) && name@ == asked,
        lookup(entries, request.key()) is None,
    ensures
        ({
            let (v1, a1) = started(request, entries);
            let (v2, a2) = if request.directory() is Some {
                stepped(v1, ResolveReply::Facts(facts))
            } else {
                (v1, a1)
            };
            let (v3, a3) = stepped(v2, ResolveReply::Workspace(Ok(workspace)));
            let (v4, a4) = stepped(v3, ResolveReply::Project(Ok(project)));
            &&& request.directory() matches Some(cwd) ==> a1 == (ResolveActionView::ReadCwd { cwd })
            &&& a2 == ResolveActionView::GetOrCreateWorkspace { name: request.workspace_name() }
            &&& a3 is GetOrCreateProject
            &&& a3->GetOrCreateProject_workspace == workspace
            &&& a3->GetOrCreateProject_name == asked
            &&& request.directory() is None ==> a3->GetOrCreateProject_repo_path is None
            &&& request.directory() is Some ==> planned(request, facts) == Some(
                (asked, a3->GetOrCreateProject_repo_path),
            )
            &&& a4 == ResolveActionView::Done { ids: (workspace, project), publish: true }
            &&& entries_after_start(request, entries) == entries
            &&& entries_after_step(v2, ResolveReply::Workspace(Ok(workspace)), entries, max)
                == entries
            &&& entries_after_step(v3, ResolveReply::Project(Ok(project)), entries, max)
                == inserted(entries, request.key(), (workspace, project), max)
        }),
{
}

/// A store that fails fails the resolution, with the name of what was asked for and the
/// store's own words, and leaves the cache as it was. So does a reply to something that
/// was not asked.
pub proof fn failing_store_fails_the_resolution(
    v: ResolverView,
    error: String,
    reply: ResolveReply,
    entries: Seq<EntryView>,
    max: nat,
)
    ensures
        v.stage == ResolveStage::Workspace ==> stepped(v, ResolveReply::Workspace(Err(error))).1
            == (ResolveActionView::Failed { message: "get_or_create_workspace: "@ + error@ }),
        v.stage is Parent ==> stepped(v, ResolveReply::Projects(Err(error))).1 == (
        ResolveActionView::Failed { message: "find_project_by_cwd_prefix: "@ + error@ }),
        v.stage is Project ==> stepped(v, ResolveReply::Project(Err(error))).1 == (
        ResolveActionView::Failed { message: "get_or_create_project: "@ + error@ }),
        stepped(v, reply).1 is Failed ==> entries_after_step(v, reply, entries, max) == entries,
        stepped(v, reply).1 is Failed && !(reply matches ResolveReply::Workspace(Err(_))) && !(
        reply matches ResolveReply::Projects(Err(_))) && !(reply matches ResolveReply::Project(
            Err(_),
        )) ==> !(v.stage == ResolveStage::Facts && reply is Facts) && !(v.stage
            == ResolveStage::Workspace && reply is Workspace) && !(v.stage is Parent
            && reply is Projects) && !(v.stage is Project && reply is Project),
{
}

/// What is asked is looked at as it is.
pub proof fn resolve_action_is_seen_whole(action: ResolveAction)
    ensures
        action matches ResolveAction::ReadCwd { cwd } ==> action@ == (ResolveActionView::ReadCwd {
            cwd: cwd@,
        }),
        action matches ResolveAction::GetOrCreateWorkspace { name } ==> action@ == (
        ResolveActionView::GetOrCreateWorkspace { name: name@ }),
        action matches ResolveAction::ListProjects { workspace } ==> action@ == (
        ResolveActionView::ListProjects { workspace }),
        action matches ResolveAction::GetOrCreateProject { workspace, name, repo_path } ==> {
            &&& action@ is GetOrCreateProject
            &&& action@->GetOrCreateProject_workspace == workspace
            &&& action@->GetOrCreateProject_name == name@
            &&& repo_path matches Some(path) ==> action@->GetOrCreateProject_repo_path == Some(
                path@,
            )
            &&& repo_path is None ==> action@->GetOrCreateProject_repo_path is None
        },
        action matches ResolveAction::Done { ids, publish } ==> action@ == (
        ResolveActionView::Done { ids, publish }),
        action matches ResolveAction::Failed { message } ==> action@ == (
        ResolveActionView::Failed { message: message@ }),
{
}

/// Looking for the project that a directory is in finds one exactly where the root of a
/// project of the workspace holds the directory, which is spelled out, and it finds the
/// project with the longest such root.
pub proof fn search_finds_the_longest_root(
    rows: Vec<ProjectRow>,
    workspace: WorkspaceId,
    cwd: &str,
    home_dir: Option<&str>,
    r: Option<&ProjectRow>,
    home: Option<Seq<char>>,
)
    requires
        call_ensures(find_project_by_cwd_prefix, (&rows, workspace, cwd, home_dir), r),
        home_dir matches Some(text) ==> home == Some(text@),
        home_dir is None ==> home is None,
    ensures
        r is Some <==> is_spelled_out(cwd@) && exists|k: int|
            0 <= k < rows@.len() && takes(#[trigger] rows@[k], workspace, cwd@, home),
        r matches Some(row) ==> takes(*row, workspace, cwd@, home) && rows@.contains(*row)
            && forall|k: int|
            0 <= k < rows@.len() && takes(#[trigger] rows@[k], workspace, cwd@, home) ==> (
            rows@[k].repo_path->0)@.len() <= (row.repo_path->0)@.len(),
{
    only_a_root_takes_a_directory(rows@, workspace, cwd@, home);
    if is_spelled_out(cwd@) {
        assert forall|k: int|
            0 <= k < rows@.len() && takes(
                #[trigger] rows@[k],
                workspace,
                cwd@,
                home,
            ) implies parent(rows@, workspace, cwd@, home) is Some && (rows@[k].repo_path->0)@.len()
            <= ((parent(rows@, workspace, cwd@, home)->0).repo_path->0)@.len() by {
            directory_below_a_root_has_a_parent(rows@, workspace, cwd@, home, k);
        }
    }
}

/// An event without overrides whose directory the root of a project holds, and which is
/// not in the cache, belongs to the project with the longest such root, unless that has
/// the very name that is derived for the directory; below the home directory as
/// anywhere else. Nothing is created for it.
pub proof fn event_below_a_root_belongs_to_its_project(
    request: ResolveRequest,
    entries: Seq<EntryView>,
    max: nat,
    store: StableStore,
    facts: CwdFacts,
    name: Seq<char>,
    cwd: Seq<char>,
    home: Option<Seq<char>>,
    k: int,
) -> (row: ProjectRow)
    requires
        is_derived(request, entries, facts, name),
        request.cwd matches Some(text) && text@ == cwd && cwd.len() > 0,
        request.home_dir matches Some(text) ==> home == Some(text@),
        request.home_dir is None ==> home is None,
        is_spelled_out(cwd),
        ({
            let workspace = (store.workspace)(request.workspace_name());
            let rows = (store.projects)(workspace)@;
            0 <= k < rows.len() && takes(rows[k], workspace, cwd, home)
        }),
    ensures
        ({
            let workspace = (store.workspace)(request.workspace_name());
            let rows = (store.projects)(workspace)@;
            &&& rows.contains(row)
            &&& takes(row, workspace, cwd, home)
            &&& (row.repo_path->0)@.len() >= (rows[k].repo_path->0)@.len()
            &&& row.name@ != name ==> resolution(request, entries, max, store, facts).0 == Some(
                (workspace, row.id),
            )
            &&& row.name@ != name ==> asked_from(
                started(request, entries).0,
                started(request, entries).1,
                store,
                facts,
            ) is None
        }),
{
    let workspace = (store.workspace)(request.workspace_name());
    let rows = (store.projects)(workspace)@;
    directory_below_a_root_has_a_parent(rows, workspace, cwd, home, k);
    only_a_root_takes_a_directory(rows, workspace, cwd, home);
    derived_name_decides_the_project(request, entries, max, store, facts, name);
    assert(opt_view(request.home_dir) == home);
    let row = parent(rows, workspace, cwd, home)->0;
    assert(stored_parent(request, store) == Some(row));
    reveal_with_fuel(asked_from, 5);
    row
}

/// A resolution goes on with what it began with: the request stays, and the name and
/// the path of its project once they are planned; the project is looked for, and then
/// created, in the workspace that was found, under that name and with that path.
pub proof fn resolution_keeps_its_plan(
    v: ResolverView,
    reply: ResolveReply,
    facts: CwdFacts,
    workspace: WorkspaceId,
    rows: Vec<ProjectRow>,
    project: ProjectId,
)
    ensures
        stepped(v, reply).0.request == v.request,
        v.stage != ResolveStage::Facts ==> stepped(v, reply).0.name == v.name && stepped(
            v,
            reply,
        ).0.repo_path == v.repo_path,
        v.stage == ResolveStage::Facts ==> ({
            let (next, action) = stepped(v, ResolveReply::Facts(facts));
            &&& planned(v.request, facts) is Some ==> next.stage == ResolveStage::Workspace && Some(
                (next.name, next.repo_path),
            ) == planned(v.request, facts) && action == (ResolveActionView::GetOrCreateWorkspace {
                name: v.request.workspace_name(),
            })
            &&& planned(v.request, facts) is None ==> action == (ResolveActionView::Done {
                ids: v.request.defaults,
                publish: true,
            })
        }),
        v.stage == ResolveStage::Workspace ==> ({
            let (next, action) = stepped(v, ResolveReply::Workspace(Ok(workspace)));
            let derived = v.request.project_override is None && v.request.directory() is Some;
            &&& derived ==> next.stage == ResolveStage::Parent(workspace) && action == (
            ResolveActionView::ListProjects { workspace })
            &&& !derived ==> next.stage == ResolveStage::Project(workspace) && action == (
            ResolveActionView::GetOrCreateProject {
                workspace,
                name: v.name,
                repo_path: v.repo_path,
            })
        }),
        v.stage == ResolveStage::Parent(workspace) ==> ({
            let (next, action) = stepped(v, ResolveReply::Projects(Ok(rows)));
            let found = parent_of(v.request, rows@, workspace);
            let foreign = found is Some && (found->0).name@ != v.name;
            &&& foreign ==> action == (ResolveActionView::Done {
                ids: (workspace, (found->0).id),
                publish: true,
            })
            &&& !foreign ==> next.stage == ResolveStage::Project(workspace) && action == (
            ResolveActionView::GetOrCreateProject {
                workspace,
                name: v.name,
                repo_path: v.repo_path,
            })
        }),
        v.stage == ResolveStage::Project(workspace) ==> stepped(
            v,
            ResolveReply::Project(Ok(project)),
        ).1 == (ResolveActionView::Done { ids: (workspace, project), publish: true }),
{
}

} // verus!
