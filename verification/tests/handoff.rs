use ai_memory::fetch::{
    handle_handoff, handle_hook, FetchAction, FetchReply, HandoffFetch,
};
use ai_memory::handoff::{
    build_auto_handoff, handoff_markdown, render_handoff_markdown, Handoff, Instant, Observation,
    MAX_NANOSECOND, MIN_NANOSECOND,
};
use ai_memory::ids::{HandoffId, ProjectId, SessionId, WorkspaceId};
use ai_memory::payload::{AgentKind, HandoffQuery, ObservationKind};
use ai_memory::project_cache::ProjectCacheStore;
use ai_memory::resolve::{CwdFacts, MainRepo, ResolveAction, ResolveReply, RootFacts};
use ai_memory::state::HookState;

fn observation(kind: ObservationKind, title: &str, body: &str) -> Observation {
    Observation { kind, title: title.to_string(), body: body.to_string() }
}

fn build(observations: &[Observation]) -> ai_memory::handoff::NewHandoff {
    build_auto_handoff(
        WorkspaceId(1),
        ProjectId(2),
        AgentKind::Known("cursor".to_string()),
        SessionId(3),
        Some("/repo".to_string()),
        observations,
    )
}

fn handoff() -> Handoff {
    Handoff {
        id: HandoffId(7),
        from_agent: AgentKind::Known("codex".to_string()),
        created_at: Instant::from_nanosecond(0).unwrap(),
        summary: "  Did things.\n".to_string(),
        open_questions: vec!["Why?".to_string(), "How?".to_string()],
        next_steps: vec!["Tools used: Bash".to_string()],
        files_touched: vec!["src/lib.rs".to_string()],
    }
}

const FOOTER: &str = "\n---\n_**To the receiving agent:** this content IS the pending handoff — already consumed by the SessionStart hook. A subsequent `memory_handoff_accept` call will return `{ \"handoff\": null }` (single-use). When the user asks \"where did we leave off?\" or \"any pending handoff?\", answer from THIS content; do NOT re-call the tool. Call `memory_query` / `memory_recent` only for additional context beyond what's listed here._\n";

#[test]
fn a_handoff_is_rendered_with_its_lists_first() {
    let expected = format!(
        "> 📥 **ai-memory: pending handoff from previous session**\n\
         > from `codex` · created 1970-01-01T00:00:00Z\n\
         \n**Open questions**\n- Why?\n- How?\n\
         \n**Next steps**\n- Tools used: Bash\n\
         \n**Files touched**\n- `src/lib.rs`\n\
         \n**Summary**\nDid things.\n{FOOTER}"
    );
    assert_eq!(render_handoff_markdown(&handoff()), expected);
}

#[test]
fn empty_lists_are_not_rendered() {
    let mut h = handoff();
    h.open_questions.clear();
    h.next_steps.clear();
    h.files_touched.clear();
    let expected = format!(
        "> 📥 **ai-memory: pending handoff from previous session**\n\
         > from `codex` · created then\n\
         \n**Summary**\nDid things.\n{FOOTER}"
    );
    assert_eq!(handoff_markdown(&h, "then"), expected);
}

#[test]
fn instants_are_shown_within_bounds() {
    for (nanosecond, text) in [
        (MIN_NANOSECOND, "-009999-01-02T01:59:59Z"),
        (MAX_NANOSECOND, "9999-12-30T22:00:00.999999999Z"),
        (1_700_000_000_123_456_000, "2023-11-14T22:13:20.123456Z"),
    ] {
        let mut h = handoff();
        h.created_at = Instant::from_nanosecond(nanosecond).unwrap();
        assert!(render_handoff_markdown(&h).contains(&format!("created {text}\n")));
    }
    assert!(Instant::from_nanosecond(MIN_NANOSECOND - 1).is_none());
    assert!(Instant::from_nanosecond(MAX_NANOSECOND + 1).is_none());
}

#[test]
fn a_session_without_prompts_is_counted() {
    let h = build(&[
        observation(ObservationKind::SessionStart, "start", ""),
        observation(ObservationKind::UserPrompt, "", ""),
    ]);
    assert_eq!(h.summary, "Session ended; 2 observations recorded.");
    assert!(h.open_questions.is_empty() && h.next_steps.is_empty());
    assert!(h.files_touched.is_empty());
    assert_eq!(h.workspace_id, WorkspaceId(1));
    assert_eq!(h.project_id, ProjectId(2));
    assert_eq!(h.from_session_id, Some(SessionId(3)));
    assert_eq!(h.from_agent.as_str(), "cursor");
    assert!(h.to_agent.is_none());
    assert_eq!(h.cwd.as_deref(), Some("/repo"));
}

#[test]
fn first_and_last_prompt_make_the_summary() {
    let h = build(&[observation(ObservationKind::UserPrompt, "short", "the full prompt")]);
    assert_eq!(h.summary, "Session focused on: the full prompt");
    assert_eq!(h.open_questions, ["Continue from: the full prompt"]);

    let h = build(&[
        observation(ObservationKind::UserPrompt, "title only", ""),
        observation(ObservationKind::Stop, "x", "y"),
        observation(ObservationKind::UserPrompt, "b", "the last"),
    ]);
    assert_eq!(h.summary, "Started: title only\n\nLast: the last");
    assert_eq!(h.open_questions, ["Continue from: the last"]);

    let h = build(&[
        observation(ObservationKind::UserPrompt, "", "same"),
        observation(ObservationKind::UserPrompt, "", "other"),
        observation(ObservationKind::UserPrompt, "", "same"),
    ]);
    assert_eq!(h.summary, "Session focused on: same");
}

#[test]
fn tools_are_listed_once_in_order() {
    let h = build(&[
        observation(ObservationKind::PostToolUse, "Write", ""),
        observation(ObservationKind::PreToolUse, "Bash", "ls"),
        observation(ObservationKind::PostToolUse, "Bash", ""),
        observation(ObservationKind::PostToolUse, "", "nameless"),
        observation(ObservationKind::Notification, "Edit", ""),
        observation(ObservationKind::PreToolUse, "apply", ""),
    ]);
    assert_eq!(h.next_steps, ["Tools used: Bash, Write, apply"]);
}

#[test]
fn long_prompts_are_capped() {
    let exact = "é".repeat(1500);
    let h = build(&[observation(ObservationKind::UserPrompt, "", &exact)]);
    assert_eq!(h.summary, format!("Session focused on: {exact}"));
    let long = "é".repeat(1501);
    let h = build(&[observation(ObservationKind::UserPrompt, "", &long)]);
    assert_eq!(h.summary, format!("Session focused on: {exact}…"));
    assert_eq!(h.open_questions, [format!("Continue from: {exact}…")]);
}

fn state() -> HookState {
    HookState {
        workspace_id: WorkspaceId(1),
        project_id: ProjectId(2),
        consolidator: false,
        consolidate_on_session_end: false,
        home_dir: None,
        known_agents: vec!["codex".to_string()],
    }
}

#[test]
fn a_handoff_is_accepted_before_it_is_returned() {
    let mut cache = ProjectCacheStore::default();
    let query = HandoffQuery {
        agent: Some("codex".to_string()),
        cwd: Some("/home/u/repo".to_string()),
        workspace: Some("acme".to_string()),
        project: None,
        project_strategy: Some("repo_root".to_string()),
    };
    let (mut fetch, action) = HandoffFetch::start(query, &state(), &mut cache);
    assert!(matches!(
        action,
        FetchAction::Resolve(ResolveAction::ReadCwd { cwd }) if cwd == "/home/u/repo",
    ));
    let facts = CwdFacts {
        basename: Some("repo".to_string()),
        main_repo: Some(MainRepo {
            name: "main".to_string(),
            root: RootFacts { text: "/home/u/main".to_string(), canonical: None },
        }),
        discovered: None,
        canonical: None,
        ancestors: Vec::new(),
    };
    let action = fetch.step(&mut cache, FetchReply::Resolve(ResolveReply::Facts(facts)));
    match action {
        FetchAction::Resolve(ResolveAction::GetOrCreateWorkspace { name }) => {
            assert_eq!(name, "acme")
        }
        _ => panic!("workspace expected"),
    }
    let ws = WorkspaceId(10);
    fetch.step(&mut cache, FetchReply::Resolve(ResolveReply::Workspace(Ok(ws))));
    match fetch.step(&mut cache, FetchReply::Resolve(ResolveReply::Projects(Ok(Vec::new())))) {
        FetchAction::Resolve(ResolveAction::GetOrCreateProject { name, repo_path, .. }) => {
            assert_eq!(name, "main");
            assert_eq!(repo_path.as_deref(), Some("/home/u/main"));
        }
        _ => panic!("project expected"),
    }
    let project = ResolveReply::Project(Ok(ProjectId(11)));
    match fetch.step(&mut cache, FetchReply::Resolve(project)) {
        FetchAction::LatestOpenHandoff { ids, publish, cwd } => {
            assert_eq!(ids, (ws, ProjectId(11)));
            assert!(publish);
            assert_eq!(cwd.as_deref(), Some("/home/u/repo"));
        }
        _ => panic!("lookup expected"),
    }
    match fetch.step(&mut cache, FetchReply::Found(Ok(Some(handoff())))) {
        FetchAction::AcceptHandoff { id, agent } => {
            assert_eq!(id, HandoffId(7));
            assert_eq!(agent.as_str(), "codex");
        }
        _ => panic!("acceptance expected"),
    }
    match fetch.step(&mut cache, FetchReply::Accepted(Ok(()))) {
        FetchAction::Reply { markdown } => {
            assert_eq!(markdown, Some(render_handoff_markdown(&handoff())))
        }
        _ => panic!("reply expected"),
    }
    assert_eq!(cache.len(), 1);
}

fn looking(cache: &mut ProjectCacheStore) -> HandoffFetch {
    let (fetch, action) = HandoffFetch::start(HandoffQuery::default(), &state(), cache);
    match action {
        FetchAction::LatestOpenHandoff { ids, publish, cwd } => {
            assert_eq!(ids, (WorkspaceId(1), ProjectId(2)));
            assert!(!publish && cwd.is_none());
        }
        _ => panic!("lookup expected"),
    }
    fetch
}

#[test]
fn no_handoff_no_acceptance() {
    let mut cache = ProjectCacheStore::default();
    let action = looking(&mut cache).step(&mut cache, FetchReply::Found(Ok(None)));
    assert!(matches!(action, FetchAction::Reply { markdown: None }));

    let error = || Err("gone".to_string());
    let action = looking(&mut cache).step(&mut cache, FetchReply::Found(Err("gone".to_string())));
    assert!(matches!(action, FetchAction::Failed { message } if message == "gone"));

    let mut fetch = looking(&mut cache);
    let action = fetch.step(&mut cache, FetchReply::Found(Ok(Some(handoff()))));
    assert!(matches!(action, FetchAction::AcceptHandoff { agent: AgentKind::Other, .. }));
    let action = fetch.step(&mut cache, FetchReply::Accepted(error()));
    assert!(matches!(action, FetchAction::Failed { message } if message == "gone"));
    let action = fetch.step(&mut cache, FetchReply::Accepted(Ok(())));
    assert!(matches!(action, FetchAction::Failed { .. }));
}

#[test]
fn the_endpoints_answer() {
    let r = handle_hook(true);
    assert_eq!((r.status, r.body.as_str()), (202, "queued"));
    let r = handle_hook(false);
    assert_eq!((r.status, r.body.as_str()), (429, "hook queue full"));
    let r = handle_handoff(Ok(Some("text".to_string())));
    assert_eq!((r.status, r.body.as_str()), (200, "text"));
    for fetched in [Ok(None), Err("failed".to_string())] {
        let r = handle_handoff(fetched);
        assert_eq!((r.status, r.body.as_str()), (200, ""));
    }
}
