use ai_memory::ids::{ProjectId, WorkspaceId};
use ai_memory::payload::ProjectStrategy;
use ai_memory::project_cache::ProjectCacheStore;
use ai_memory::resolve::{
    cache_key_for, cwd_is_repo_root, derive_project_from_cwd, derive_project_name,
    find_project_by_cwd_prefix, repo_path_from_cwd, repo_path_from_project_override,
    repo_root_in_cwd_namespace, Ancestor, CwdFacts, MainRepo, ProjectRow, ResolveAction,
    ResolveReply, ResolveRequest, Resolver, RootFacts, UNEXPECTED_REPLY,
};

const WS: WorkspaceId = WorkspaceId(1);
const SCRATCH: ProjectId = ProjectId(2);

fn opt(s: Option<&str>) -> Option<String> {
    s.map(|t| t.to_string())
}

fn request(
    cwd: Option<&str>,
    workspace: Option<&str>,
    project: Option<&str>,
    strategy: ProjectStrategy,
) -> ResolveRequest {
    ResolveRequest {
        cwd: opt(cwd),
        workspace_override: opt(workspace),
        project_override: opt(project),
        strategy,
        defaults: (WS, SCRATCH),
        home_dir: Some("/home/user".to_string()),
    }
}

fn root(text: &str, canonical: Option<&str>) -> RootFacts {
    RootFacts { text: text.to_string(), canonical: canonical.map(|c| c.as_bytes().to_vec()) }
}

fn repo(name: &str, root: RootFacts) -> MainRepo {
    MainRepo { name: name.to_string(), root }
}

fn ancestor(text: &str, canonical: Option<&str>) -> Ancestor {
    Ancestor { text: text.to_string(), canonical: canonical.map(|c| c.as_bytes().to_vec()) }
}

fn no_git(name: Option<&str>) -> CwdFacts {
    CwdFacts {
        basename: name.map(|n| n.to_string()),
        main_repo: None,
        discovered: None,
        canonical: None,
        ancestors: Vec::new(),
    }
}

fn row(id: u128, workspace: WorkspaceId, name: &str, root: Option<&str>) -> ProjectRow {
    ProjectRow {
        id: ProjectId(id),
        workspace_id: workspace,
        name: name.to_string(),
        repo_path: opt(root),
    }
}

/// A store in memory: workspaces and projects by name, numbered as they come.
struct Store {
    workspaces: Vec<String>,
    projects: Vec<(WorkspaceId, String, Option<String>)>,
    asked: Vec<String>,
}

impl Store {
    fn new() -> Store {
        Store { workspaces: Vec::new(), projects: Vec::new(), asked: Vec::new() }
    }

    fn workspace(&mut self, name: &str) -> WorkspaceId {
        if !self.workspaces.iter().any(|w| w == name) {
            self.workspaces.push(name.to_string());
        }
        let i = self.workspaces.iter().position(|w| w == name).unwrap();
        WorkspaceId(100 + i as u128)
    }

    fn project(&mut self, ws: WorkspaceId, name: &str, root: Option<String>) -> ProjectId {
        if !self.projects.iter().any(|p| p.0 == ws && p.1 == name) {
            self.projects.push((ws, name.to_string(), root));
        }
        let i = self.projects.iter().position(|p| p.0 == ws && p.1 == name).unwrap();
        ProjectId(200 + i as u128)
    }

    fn rows(&self, ws: WorkspaceId) -> Vec<ProjectRow> {
        let mut rows = Vec::new();
        for (i, (w, name, root)) in self.projects.iter().enumerate() {
            if *w == ws {
                rows.push(row(200 + i as u128, *w, name, root.as_deref()));
            }
        }
        rows
    }

    fn resolve(
        &mut self,
        cache: &mut ProjectCacheStore,
        request: ResolveRequest,
        facts: impl Fn() -> CwdFacts,
    ) -> ((WorkspaceId, ProjectId), bool) {
        let (mut resolver, mut action) = Resolver::start(request, cache);
        loop {
            let reply = match action {
                ResolveAction::ReadCwd { cwd, .. } => {
                    self.asked.push(format!("read {cwd}"));
                    ResolveReply::Facts(facts())
                }
                ResolveAction::GetOrCreateWorkspace { name } => {
                    self.asked.push(format!("workspace {name}"));
                    ResolveReply::Workspace(Ok(self.workspace(&name)))
                }
                ResolveAction::ListProjects { workspace } => {
                    self.asked.push("projects".to_string());
                    ResolveReply::Projects(Ok(self.rows(workspace)))
                }
                ResolveAction::GetOrCreateProject { workspace, name, repo_path } => {
                    self.asked.push(format!("project {name} {repo_path:?}"));
                    ResolveReply::Project(Ok(self.project(workspace, &name, repo_path)))
                }
                ResolveAction::Done { ids, publish } => return (ids, publish),
                ResolveAction::Failed { message } => panic!("{message}"),
            };
            action = resolver.step(cache, reply);
        }
    }
}

#[test]
fn an_event_that_says_nothing_belongs_to_the_defaults() {
    let mut cache = ProjectCacheStore::default();
    for cwd in [None, Some("")] {
        let mut store = Store::new();
        let r = request(cwd, Some("w"), None, ProjectStrategy::Basename);
        let (ids, publish) = store.resolve(&mut cache, r, || no_git(None));
        assert_eq!(ids, (WS, SCRATCH));
        assert!(!publish);
        assert!(store.asked.is_empty());
    }
    assert_eq!(cache.len(), 0);
}

#[test]
fn the_root_directory_belongs_to_the_defaults_and_is_published() {
    let mut cache = ProjectCacheStore::default();
    let mut store = Store::new();
    let r = request(Some("/"), None, None, ProjectStrategy::Basename);
    let (ids, publish) = store.resolve(&mut cache, r, || no_git(None));
    assert_eq!(ids, (WS, SCRATCH));
    assert!(publish);
    assert_eq!(cache.len(), 0);
}

#[test]
fn a_new_directory_gets_its_own_project_once() {
    let mut cache = ProjectCacheStore::default();
    let mut store = Store::new();
    let ask = || request(Some("/home/user/alpha"), None, None, ProjectStrategy::Basename);
    let (first, publish) = store.resolve(&mut cache, ask(), || no_git(Some("alpha")));
    assert!(publish);
    assert_eq!(
        store.asked,
        [
            "read /home/user/alpha",
            "workspace default",
            "projects",
            "project alpha None",
        ],
    );
    assert_eq!(cache.len(), 1);
    let key = cache_key_for(
        Some("/home/user/alpha"),
        None,
        None,
        ProjectStrategy::Basename,
    );
    assert!(cache.contains_key(&key));
    store.asked.clear();
    let (second, publish) = store.resolve(&mut cache, ask(), || no_git(Some("alpha")));
    assert_eq!(first, second);
    assert!(publish && store.asked.is_empty());
    assert_eq!(cache.len(), 1);

    let r = request(Some("/home/user/beta"), None, None, ProjectStrategy::Basename);
    let (third, _) = store.resolve(&mut cache, r, || no_git(Some("beta")));
    assert_eq!(third.0, first.0);
    assert!(third.1 != first.1);
}

#[test]
fn a_directory_inside_a_project_belongs_to_the_most_specific_one() {
    let mut cache = ProjectCacheStore::default();
    let mut store = Store::new();
    let ws = store.workspace("default");
    let outer = store.project(ws, "manga-plus", opt(Some("/repo/manga-plus")));
    let cwd = "/repo/manga-plus/reader/src";
    let r = request(Some(cwd), None, None, ProjectStrategy::Basename);
    let (ids, _) = store.resolve(&mut cache, r, || no_git(Some("src")));
    assert_eq!(ids, (ws, outer));
    assert_eq!(store.projects.len(), 1);

    let inner = store.project(ws, "reader-app", opt(Some("/repo/manga-plus/reader")));
    let r = request(Some("/repo/manga-plus/reader/lib"), None, None, ProjectStrategy::Basename);
    let (ids, _) = store.resolve(&mut cache, r, || no_git(Some("lib")));
    assert_eq!(ids, (ws, inner));

    let r = request(Some(cwd), Some("other"), None, ProjectStrategy::Basename);
    let (ids, _) = store.resolve(&mut cache, r, || no_git(Some("src")));
    assert!(ids.0 != ws && ids.1 != outer);
}

#[test]
fn a_parent_of_the_same_name_is_asked_for_by_name() {
    let mut cache = ProjectCacheStore::default();
    let mut store = Store::new();
    let ws = store.workspace("default");
    let own = store.project(ws, "repo", opt(Some("/repo")));
    let r = request(Some("/repo"), None, None, ProjectStrategy::Basename);
    let (ids, _) = store.resolve(&mut cache, r, || no_git(Some("repo")));
    assert_eq!(ids, (ws, own));
    assert!(store.asked.contains(&"project repo None".to_string()));
}

#[test]
fn a_project_that_is_asked_for_wins() {
    let mut cache = ProjectCacheStore::default();
    let mut store = Store::new();
    let ws = store.workspace("default");
    store.project(ws, "outer", opt(Some("/home/u")));
    store.asked.clear();
    let r = request(Some("/home/u/api"), None, Some("manual"), ProjectStrategy::RepoRoot);
    let (ids, _) = store.resolve(&mut cache, r, || no_git(Some("api")));
    assert_eq!(ids, (ws, store.project(ws, "manual", None)));
    assert!(!store.asked.iter().any(|a| a == "projects"));
    assert_eq!(store.asked.last().unwrap(), "project manual None");
}

#[test]
fn overrides_are_enough_without_a_directory() {
    let mut cache = ProjectCacheStore::default();
    let mut store = Store::new();
    let r = request(None, Some("acme"), Some("api"), ProjectStrategy::Basename);
    let (a, publish) = store.resolve(&mut cache, r, || no_git(None));
    assert!(publish);
    assert_eq!(store.asked, ["workspace acme", "project api None"]);
    let r = request(Some("/somewhere"), Some("acme"), Some("api"), ProjectStrategy::Basename);
    let (b, _) = store.resolve(&mut cache, r, || no_git(Some("somewhere")));
    assert_eq!(a, b);
    assert_eq!(cache.len(), 2);
}

fn by_basename(store: &mut Store, cwd: &str, name: &str) -> (WorkspaceId, ProjectId) {
    let mut cache = ProjectCacheStore::default();
    let r = request(Some(cwd), None, None, ProjectStrategy::Basename);
    store.resolve(&mut cache, r, || no_git(Some(name))).0
}

#[test]
fn resolve_uses_existing_parent_when_cwd_is_inside() {
    let mut store = Store::new();
    let ws = store.workspace("default");
    let parent = store.project(ws, "manga-plus", opt(Some("/repo/manga-plus")));
    let ids = by_basename(&mut store, "/repo/manga-plus/reader/src", "src");
    assert_eq!(ids, (ws, parent));
    assert!(!store.projects.iter().any(|p| p.1 == "src" || p.1 == "reader"));
}

#[test]
fn resolve_prefers_more_specific_sub_project_over_outer_parent() {
    let mut store = Store::new();
    let ws = store.workspace("default");
    store.project(ws, "manga-plus", opt(Some("/repo/manga-plus")));
    let inner = store.project(ws, "reader-app", opt(Some("/repo/manga-plus/reader")));
    let (_, resolved) = by_basename(&mut store, "/repo/manga-plus/reader/src", "src");
    assert_eq!(resolved, inner);
}

#[test]
fn resolve_does_not_leak_across_workspaces_on_prefix_match() {
    let mut store = Store::new();
    let other = store.workspace("other");
    let parent = store.project(other, "manga-plus", opt(Some("/repo/manga-plus")));
    let (ws, resolved) = by_basename(&mut store, "/repo/manga-plus/reader", "reader");
    assert_ne!(ws, other);
    assert_ne!(resolved, parent);
}

#[test]
fn resolve_ignores_degenerate_repo_paths() {
    let mut store = Store::new();
    let ws = store.workspace("default");
    for (name, repo) in
        [("empty-repo", ""), ("root-repo", "/"), ("trailing-repo", "/repo/foo/")]
    {
        store.project(ws, name, opt(Some(repo)));
    }
    let (resolved_ws, resolved) = by_basename(&mut store, "/repo/foo/bar", "bar");
    assert_eq!(store.projects.last().unwrap().1, "bar");
    assert_eq!(resolved, store.project(resolved_ws, "bar", None));
}

#[test]
fn resolve_does_not_match_sibling_substring() {
    let mut store = Store::new();
    let ws = store.workspace("default");
    store.project(ws, "foo-ba", opt(Some("/repo/foo-ba")));
    let (resolved_ws, resolved) = by_basename(&mut store, "/repo/foo-bar", "foo-bar");
    assert_eq!(store.projects.last().unwrap().1, "foo-bar");
    assert_eq!(resolved, store.project(resolved_ws, "foo-bar", None));
}

#[test]
fn resolve_ignores_cwds_with_dot_segments() {
    let mut store = Store::new();
    let ws = store.workspace("default");
    let parent = store.project(ws, "manga-plus", opt(Some("/repo/manga-plus")));
    for (cwd, name) in [
        ("/repo/manga-plus/../other", "other"),
        ("/repo/./manga-plus/x", "x"),
        ("/repo/manga-plus/./y", "y"),
    ] {
        let (_, resolved) = by_basename(&mut store, cwd, name);
        assert_ne!(resolved, parent, "{cwd}");
    }
}

#[test]
fn resolve_ignores_repo_paths_with_like_wildcards() {
    let mut store = Store::new();
    let ws = store.workspace("default");
    store.project(ws, "poison-percent", opt(Some("/repo/anything%/poison")));
    store.project(ws, "poison-underscore", opt(Some("/repo/anyth_ng")));
    let (resolved_ws, resolved) =
        by_basename(&mut store, "/repo/anything-foo/poison/sub", "sub");
    assert_eq!(store.projects.last().unwrap().1, "sub");
    assert_eq!(resolved, store.project(resolved_ws, "sub", None));
}

#[test]
fn resolve_falls_through_to_create_when_no_prefix_matches() {
    let mut store = Store::new();
    let (ws, resolved) = by_basename(&mut store, "/repo/brand-new", "brand-new");
    assert_eq!(store.projects.len(), 1);
    assert_eq!(resolved, store.project(ws, "brand-new", None));
}

#[test]
fn a_directory_is_in_the_longest_root_that_holds_it() {
    let found = |rows: &Vec<ProjectRow>, cwd: &str, home: Option<&str>| {
        find_project_by_cwd_prefix(rows, WS, cwd, home).map(|r| r.id.0)
    };
    let rows = vec![
        row(1, WS, "outer", Some("/r")),
        row(2, WS, "inner", Some("/r/é")),
        row(3, WS, "again", Some("/r/é")),
        row(4, WorkspaceId(9), "foreign", Some("/r/é/x")),
        row(5, WS, "bare", None),
    ];
    assert_eq!(found(&rows, "/r", None), Some(1));
    assert_eq!(found(&rows, "/r/", None), Some(1));
    assert_eq!(found(&rows, "/r/é", None), Some(2));
    assert_eq!(found(&rows, "/r/é/x/y", None), Some(2));
    assert_eq!(found(&rows, "/r/éx", None), Some(1));
    assert_eq!(found(&rows, "/rx", None), None);
    assert_eq!(found(&rows, "", None), None);
    assert_eq!(found(&rows, "/r/x", Some("/r")), None);
    assert_eq!(found(&rows, "/r/é/x", Some("/r/é")), Some(1));
    for cwd in ["/r/.", "/r/..", "./r", "/r/./x", "/r/../x", "..", "."] {
        assert_eq!(found(&rows, cwd, None), None, "{cwd}");
    }
    for cwd in ["/r/...", "/r/.git", "/r/a..b", "/r/..x/y", "/r//x", "/r/x."] {
        assert_eq!(found(&rows, cwd, None), Some(1), "{cwd}");
    }
    assert_eq!(found(&Vec::new(), "/r", None), None);
}

#[test]
fn matching_overrides_collapse_to_same_pair() {
    let mut cache = ProjectCacheStore::default();
    let mut store = Store::new();
    let r = request(Some("/x"), Some("acme"), Some("api"), ProjectStrategy::Basename);
    let (a, _) = store.resolve(&mut cache, r, || no_git(Some("x")));
    let r = request(Some("/y"), Some("acme"), Some("api"), ProjectStrategy::Basename);
    let (b, _) = store.resolve(&mut cache, r, || no_git(Some("y")));
    assert_eq!(a, b);
}

#[test]
fn worktree_resolves_to_same_project_as_main_repo() {
    let mut cache = ProjectCacheStore::default();
    let mut store = Store::new();
    let (main_dir, worktree) = ("/tmp/my-project", "/tmp/my-project-feature-branch");
    let shared = |cwd: &str| CwdFacts {
        basename: Some(cwd.rsplit('/').next().unwrap().to_string()),
        main_repo: Some(repo("my-project", root(main_dir, Some(main_dir)))),
        discovered: Some(root(cwd, Some(cwd))),
        canonical: Some(cwd.as_bytes().to_vec()),
        ancestors: vec![ancestor(cwd, Some(cwd)), ancestor("/tmp", Some("/tmp"))],
    };
    let r = request(Some(main_dir), None, None, ProjectStrategy::RepoRoot);
    let (main_ids, _) = store.resolve(&mut cache, r, || shared(main_dir));
    let r = request(Some(worktree), None, None, ProjectStrategy::RepoRoot);
    let (worktree_ids, _) = store.resolve(&mut cache, r, || shared(worktree));
    assert_eq!(main_ids, worktree_ids);

    let r = request(Some(worktree), None, None, ProjectStrategy::Basename);
    let (by_name, _) = store.resolve(&mut cache, r, || shared(worktree));
    assert_ne!(main_ids.1, by_name.1);
}

fn last_name(path: &str) -> String {
    path.rsplit('/').next().unwrap().to_string()
}

/// What is known of a directory in the repository at `top`; `real` is what the path is
/// without symlinks.
fn in_repo(top: &str, cwd: &str, real: impl Fn(&str) -> String) -> CwdFacts {
    let canonical = |path: &str| Some(real(path).into_bytes());
    let found = || RootFacts { text: top.to_string(), canonical: canonical(top) };
    let mut ancestors = Vec::new();
    let mut path = cwd;
    while !path.is_empty() {
        ancestors.push(Ancestor { text: path.to_string(), canonical: canonical(path) });
        path = &path[..path.rfind('/').unwrap()];
    }
    CwdFacts {
        basename: Some(last_name(cwd)),
        main_repo: Some(repo(&last_name(top), found())),
        discovered: Some(found()),
        canonical: canonical(cwd),
        ancestors,
    }
}

/// Resolves a directory in the repository at `top`, or in none.
fn resolve_in(
    store: &mut Store,
    cache: &mut ProjectCacheStore,
    top: Option<&str>,
    cwd: &str,
    project: Option<&str>,
    strategy: ProjectStrategy,
) -> ProjectId {
    let r = request(Some(cwd), None, project, strategy);
    let facts = || match top {
        Some(top) => in_repo(top, cwd, |path| path.to_string()),
        None => no_git(Some(&last_name(cwd))),
    };
    store.resolve(cache, r, facts).0 .1
}

#[test]
fn nongit_ancestor_does_not_become_repo_path_catch_all() {
    let (mut store, mut cache) = (Store::new(), ProjectCacheStore::default());
    let by_name = ProjectStrategy::Basename;
    let (home, app) = ("/tmp/home", "/tmp/home/projects/app");
    let proj_home = resolve_in(&mut store, &mut cache, None, home, None, by_name);
    let proj_app = resolve_in(&mut store, &mut cache, Some(app), app, None, by_name);
    assert_ne!(proj_app, proj_home);
    let ws = store.workspace("default");
    assert_eq!(store.project(ws, "app", None), proj_app);
    assert_eq!(store.projects[0].2, None);
    assert_eq!(store.projects[1].2.as_deref(), Some(app));
}

#[test]
fn project_override_nongit_ancestor_does_not_become_repo_path_catch_all() {
    let (mut store, mut cache) = (Store::new(), ProjectCacheStore::default());
    let by_name = ProjectStrategy::Basename;
    let (home, app) = ("/tmp/home", "/tmp/home/projects/app");
    let asked = Some("home-override");
    let proj_home = resolve_in(&mut store, &mut cache, None, home, asked, by_name);
    let proj_app = resolve_in(&mut store, &mut cache, Some(app), app, None, by_name);
    assert_ne!(proj_app, proj_home);
    let ws = store.workspace("default");
    assert_eq!(store.project(ws, "app", None), proj_app);
}

#[test]
fn basename_subdir_first_does_not_capture_whole_repo() {
    let (mut store, mut cache) = (Store::new(), ProjectCacheStore::default());
    let by_name = ProjectStrategy::Basename;
    let top = "/tmp/myrepo";
    let mut at = |cwd: &str| resolve_in(&mut store, &mut cache, Some(top), cwd, None, by_name);
    let backend = at("/tmp/myrepo/backend");
    let frontend = at("/tmp/myrepo/frontend");
    assert_ne!(frontend, backend);
    let whole = at("/tmp/myrepo");
    assert_ne!(whole, backend);
    assert_eq!(store.projects[0].2, None);
}

#[test]
fn default_strategy_keeps_git_subdirs_as_basename_projects() {
    let (mut store, mut cache) = (Store::new(), ProjectCacheStore::default());
    let (top, app) = ("/tmp/my-project", "/tmp/my-project/app");
    let by_name = ProjectStrategy::Basename;
    let by_root = ProjectStrategy::RepoRoot;
    let basename = resolve_in(&mut store, &mut cache, Some(top), app, None, by_name);
    let explicit = resolve_in(&mut store, &mut cache, Some(top), top, Some("app"), by_root);
    let repo_root = resolve_in(&mut store, &mut cache, Some(top), app, None, by_root);
    assert_eq!(basename, explicit);
    assert_ne!(basename, repo_root);
}

#[test]
fn project_override_wins_over_repo_root_strategy() {
    let (mut store, mut cache) = (Store::new(), ProjectCacheStore::default());
    let (top, app) = ("/tmp/repo", "/tmp/repo/app");
    let by_name = ProjectStrategy::Basename;
    let by_root = ProjectStrategy::RepoRoot;
    let manual = Some("manual");
    let repo_root = resolve_in(&mut store, &mut cache, Some(top), app, None, by_root);
    let asked_root = resolve_in(&mut store, &mut cache, Some(top), app, manual, by_root);
    let asked_name = resolve_in(&mut store, &mut cache, Some(top), app, manual, by_name);
    assert_eq!(asked_root, asked_name);
    assert_ne!(asked_root, repo_root);
}

#[test]
fn host_resolved_repo_root_override_records_repo_path_when_visible() {
    let (mut store, mut cache) = (Store::new(), ProjectCacheStore::default());
    let (top, app, sibling) = ("/tmp/repo", "/tmp/repo/app", "/tmp/repo/sibling");
    let by_root = ProjectStrategy::RepoRoot;
    let by_name = ProjectStrategy::Basename;
    let host = resolve_in(&mut store, &mut cache, Some(top), app, Some("repo"), by_root);
    let from_sibling = resolve_in(&mut store, &mut cache, Some(top), sibling, None, by_name);
    assert_eq!(from_sibling, host);
}

#[test]
fn repo_root_override_stores_repo_path_in_cwd_namespace() {
    let (mut store, mut cache) = (Store::new(), ProjectCacheStore::default());
    let real = |path: &str| path.replacen("/tmp/alias", "/tmp/real", 1);
    let facts = |cwd: &str| in_repo("/tmp/real/repo", cwd, real);
    let app = "/tmp/alias/repo/app";
    let r = request(Some(app), None, Some("repo"), ProjectStrategy::RepoRoot);
    let (asked, _) = store.resolve(&mut cache, r, || facts(app));
    assert_eq!(store.projects[0].2.as_deref(), Some("/tmp/alias/repo"));
    let sibling = "/tmp/alias/repo/sibling";
    let r = request(Some(sibling), None, None, ProjectStrategy::Basename);
    let (from_sibling, _) = store.resolve(&mut cache, r, || facts(sibling));
    assert_eq!(from_sibling, asked);
}

#[test]
fn cache_does_not_poison_across_project_strategies() {
    let (mut store, mut cache) = (Store::new(), ProjectCacheStore::default());
    let (top, app) = ("/tmp/repo", "/tmp/repo/app");
    let by_name = ProjectStrategy::Basename;
    let by_root = ProjectStrategy::RepoRoot;
    let basename = resolve_in(&mut store, &mut cache, Some(top), app, None, by_name);
    let repo_root = resolve_in(&mut store, &mut cache, Some(top), app, None, by_root);
    assert_ne!(basename, repo_root);
    assert_eq!(cache.len(), 2);
}

#[test]
fn the_strategy_names_the_project() {
    let facts = in_repo("/r/main", "/r/tree", |path| path.to_string());
    let (name, found) = derive_project_name(&facts, ProjectStrategy::RepoRoot).unwrap();
    assert_eq!((name, found.unwrap().text.as_str()), ("main", "/r/main"));
    let (name, found) = derive_project_name(&facts, ProjectStrategy::Basename).unwrap();
    assert!(name == "tree" && found.is_none());
    let outside = no_git(Some("plain"));
    let (name, found) = derive_project_name(&outside, ProjectStrategy::RepoRoot).unwrap();
    assert!(name == "plain" && found.is_none());
    assert!(derive_project_name(&no_git(None), ProjectStrategy::RepoRoot).is_none());
}

#[test]
fn slots_differ_by_override_and_strategy() {
    let base = cache_key_for(Some("/a"), None, None, ProjectStrategy::Basename);
    assert_eq!(
        base,
        ("/a".to_string(), String::new(), String::new(), "basename".to_string()),
    );
    assert_eq!(base, cache_key_for(Some("/a"), Some(""), Some(""), ProjectStrategy::Basename));
    assert!(base != cache_key_for(Some("/a"), Some("w"), None, ProjectStrategy::Basename));
    assert!(base != cache_key_for(Some("/a"), None, Some("p"), ProjectStrategy::Basename));
    assert!(base != cache_key_for(Some("/a"), None, None, ProjectStrategy::RepoRoot));
    assert!(base != cache_key_for(None, None, None, ProjectStrategy::Basename));
}

#[test]
fn a_root_is_recorded_only_where_the_directory_is_the_root() {
    let mut facts = no_git(Some("backend"));
    assert_eq!(repo_path_from_cwd("/r/backend", &facts), None);
    facts.discovered = Some(root("/r/", Some("/r")));
    facts.canonical = Some(b"/r/backend".to_vec());
    facts.ancestors = vec![
        ancestor("/r/backend", Some("/r/backend")),
        ancestor("/r", Some("/r")),
        ancestor("/", Some("/")),
    ];
    assert_eq!(repo_path_from_cwd("/r/backend", &facts), None);
    assert_eq!(
        derive_project_from_cwd("/r/backend", ProjectStrategy::Basename, &facts),
        Some(("backend".to_string(), None)),
    );
    facts.canonical = Some(b"/r".to_vec());
    facts.ancestors = vec![ancestor("/r", Some("/r")), ancestor("/", Some("/"))];
    assert_eq!(repo_path_from_cwd("/r", &facts), opt(Some("/r")));
}

#[test]
fn a_root_is_compared_by_text_where_no_canonical_path_is_known() {
    let facts = no_git(None);
    assert!(cwd_is_repo_root("/r//", &facts, &root("/r/", None)));
    assert!(!cwd_is_repo_root("/r/a", &facts, &root("/r/", None)));
    let mut facts = no_git(None);
    facts.canonical = Some(b"/private/r".to_vec());
    assert!(cwd_is_repo_root("/r", &facts, &root("/other", Some("/private/r"))));
    assert!(!cwd_is_repo_root("/r", &facts, &root("/r", Some("/elsewhere"))));
    assert!(cwd_is_repo_root("/r", &facts, &root("/r", None)));
}

#[test]
fn a_root_is_spelled_as_in_the_directory() {
    let mut facts = no_git(Some("repo"));
    facts.ancestors = vec![
        ancestor("/var/repo/app", Some("/private/var/repo/app")),
        ancestor("/var/repo", Some("/private/var/repo")),
        ancestor("/var", None),
    ];
    let r = root("/private/var/repo/", Some("/private/var/repo"));
    assert_eq!(repo_root_in_cwd_namespace(&facts, &r), "/var/repo");
    assert_eq!(repo_root_in_cwd_namespace(&facts, &root("/x/", None)), "/x/");
    assert_eq!(repo_root_in_cwd_namespace(&facts, &root("/x/", Some("/x"))), "/x/");

    facts.basename = Some("app".to_string());
    facts.main_repo = Some(repo("repo", r));
    let cwd = "/var/repo/app";
    let repo_root = ProjectStrategy::RepoRoot;
    assert_eq!(
        derive_project_from_cwd(cwd, repo_root, &facts),
        Some(("repo".to_string(), opt(Some("/var/repo")))),
    );
    assert_eq!(
        derive_project_from_cwd(cwd, ProjectStrategy::Basename, &facts),
        Some(("app".to_string(), None)),
    );
    assert_eq!(
        repo_path_from_project_override(cwd, "repo", repo_root, &facts),
        opt(Some("/var/repo")),
    );
    assert_eq!(repo_path_from_project_override(cwd, "manual", repo_root, &facts), None);
    assert_eq!(
        repo_path_from_project_override(cwd, "repo", ProjectStrategy::Basename, &facts),
        None,
    );
}

#[test]
fn a_store_that_fails_fails_the_resolution() {
    let fail = |e: &str| e.to_string();
    let mut cache = ProjectCacheStore::default();
    let start = |cache: &mut ProjectCacheStore| {
        Resolver::start(request(Some("/a"), None, None, ProjectStrategy::Basename), cache).0
    };
    let failed = |action: ResolveAction| match action {
        ResolveAction::Failed { message } => message,
        _ => panic!("did not fail"),
    };

    let mut r = start(&mut cache);
    r.step(&mut cache, ResolveReply::Facts(no_git(Some("a"))));
    let action = r.step(&mut cache, ResolveReply::Workspace(Err(fail("locked"))));
    assert_eq!(failed(action), "get_or_create_workspace: locked");

    let mut r = start(&mut cache);
    r.step(&mut cache, ResolveReply::Facts(no_git(Some("a"))));
    r.step(&mut cache, ResolveReply::Workspace(Ok(WS)));
    let action = r.step(&mut cache, ResolveReply::Projects(Err(fail("busy"))));
    assert_eq!(failed(action), "find_project_by_cwd_prefix: busy");

    let mut r = start(&mut cache);
    r.step(&mut cache, ResolveReply::Facts(no_git(Some("a"))));
    r.step(&mut cache, ResolveReply::Workspace(Ok(WS)));
    r.step(&mut cache, ResolveReply::Projects(Ok(Vec::new())));
    let action = r.step(&mut cache, ResolveReply::Project(Err(fail("full"))));
    assert_eq!(failed(action), "get_or_create_project: full");

    let mut r = start(&mut cache);
    let action = r.step(&mut cache, ResolveReply::Project(Ok(SCRATCH)));
    assert_eq!(failed(action), UNEXPECTED_REPLY);
    assert_eq!(cache.len(), 0);
}
