use ai_memory::handoff::Observation;
use ai_memory::ids::{PageId, ProjectId, SessionId, WorkspaceId};
use ai_memory::payload::{AgentKind, HookEnvelope, HookEvent, ObservationKind, ProjectStrategy};
use ai_memory::process::{
    importance_for, resolve_session_id, session_from_name, session_of, short_id, ProcessAction,
    ProcessReply, Processor, NO_SESSION,
};
use ai_memory::project_cache::ProjectCacheStore;
use ai_memory::resolve::{cache_key_for, CwdFacts, ResolveAction, ResolveReply};
use ai_memory::state::{actor_key, HookState};

fn envelope(event: HookEvent, session: Option<&str>) -> HookEnvelope {
    HookEnvelope {
        event,
        agent: AgentKind::Known("opencode".to_string()),
        session_id: session.map(|s| s.to_string()),
        cwd: None,
        workspace_override: None,
        project_override: None,
        project_strategy: ProjectStrategy::Basename,
        title_hint: None,
        body_excerpt: None,
        extension: None,
        source_event: None,
    }
}

fn state(consolidator: bool, on_end: bool) -> HookState {
    HookState {
        workspace_id: WorkspaceId(1),
        project_id: ProjectId(2),
        consolidator,
        consolidate_on_session_end: on_end,
        home_dir: None,
        known_agents: Vec::new(),
    }
}

const SID: &str = "11111111-1111-1111-1111-111111111111";

#[test]
fn resolve_session_id_hashes_agent_ids_deterministically() {
    let env = envelope(HookEvent::PostToolUse, Some("opencode-session-123"));
    let first = resolve_session_id(&env).unwrap();
    let second = resolve_session_id(&env).unwrap();
    assert_eq!(first, second);
}

#[test]
fn a_session_name_is_a_uuid_or_is_hashed() {
    assert_eq!(session_from_name(SID), SessionId(0x11111111_1111_1111_1111_111111111111));
    let expected = uuid::Uuid::new_v5(&uuid::Uuid::NAMESPACE_OID, b"opencode-session-123");
    assert_eq!(session_from_name("opencode-session-123"), SessionId(expected.as_u128()));
    assert!(session_from_name("a") != session_from_name("b"));
}

#[test]
fn every_form_of_a_uuid_names_the_same_session() {
    let id = SessionId(0x936da01f_9abd_4d9d_80c7_02af85c822a8);
    for name in [
        "936da01f-9abd-4d9d-80c7-02af85c822a8",
        "936DA01F-9ABD-4D9D-80C7-02AF85C822A8",
        "936da01f9abd4d9d80c702af85c822a8",
        "{936da01f-9abd-4d9d-80c7-02af85c822a8}",
        "URN:uuid:936da01f-9abd-4d9d-80c7-02af85c822a8",
    ] {
        assert_eq!(session_from_name(name), id);
    }
    for name in [
        "936da01f-9abd-4d9d-80c7-02af85c822a",
        "936da01f-9abd-4d9d-80c7-02af85c822ag",
        "936da01f9-abd-4d9d-80c7-02af85c822a8",
        "{936da01f9abd4d9d80c702af85c822a8}",
        "(936da01f-9abd-4d9d-80c7-02af85c822a8)",
        "é36da01f9abd4d9d80c702af85c822a",
    ] {
        assert!(session_from_name(name) != id);
        let hashed = uuid::Uuid::new_v5(&uuid::Uuid::NAMESPACE_OID, name.as_bytes());
        assert_eq!(session_from_name(name), SessionId(hashed.as_u128()));
    }
}

#[test]
fn a_session_is_needed_unless_one_starts() {
    let error = resolve_session_id(&envelope(HookEvent::UserPrompt, None)).unwrap_err();
    assert_eq!(error, "hook payload missing session_id and event is not session-start");
    let a = resolve_session_id(&envelope(HookEvent::SessionStart, None)).unwrap();
    let b = resolve_session_id(&envelope(HookEvent::SessionStart, None)).unwrap();
    assert!(a != b);
    let fresh = SessionId(9);
    assert_eq!(session_of(None, Some(fresh)), Ok(fresh));
    assert_eq!(session_of(Some(SessionId(4)), Some(fresh)), Ok(SessionId(4)));
    assert_eq!(session_of(Some(SessionId(4)), None), Ok(SessionId(4)));
    assert_eq!(session_of(None, None), Err(NO_SESSION.to_string()));
    let mut cache = ProjectCacheStore::default();
    assert!(Processor::start(
        envelope(HookEvent::Stop, None),
        &state(false, false),
        &mut cache
    )
    .is_err());
}

#[test]
fn events_have_their_importance() {
    for (event, importance) in [
        (HookEvent::SessionStart, 7),
        (HookEvent::SessionEnd, 7),
        (HookEvent::UserPrompt, 8),
        (HookEvent::PostToolUse, 5),
        (HookEvent::PreToolUse, 5),
        (HookEvent::Stop, 6),
        (HookEvent::PreCompact, 6),
        (HookEvent::Notification, 3),
        (HookEvent::Other, 3),
    ] {
        assert_eq!(importance_for(event), importance);
    }
    assert_eq!(short_id("0123456789"), "01234567");
    assert_eq!(short_id("é"), "é");
}

#[test]
fn the_actor_is_the_user_and_the_raw_session() {
    let key = actor_key(&Some("ann".to_string()), &Some("raw".to_string()));
    assert_eq!(key.user.as_deref(), Some("ann"));
    assert_eq!(key.session_id.as_deref(), Some("raw"));
    let key = actor_key(&None, &None);
    assert!(key.user.is_none() && key.session_id.is_none());
}

fn begun(env: HookEnvelope, state: &HookState, cache: &mut ProjectCacheStore) -> Processor {
    let (processor, action) = Processor::start(env, state, cache).unwrap();
    match action {
        ProcessAction::BeginSession { new_session: session, publish } => {
            assert_eq!(session.id, SessionId(0x11111111_1111_1111_1111_111111111111));
            assert_eq!(session.workspace_id, WorkspaceId(1));
            assert_eq!(session.project_id, ProjectId(2));
            assert_eq!(session.agent_kind.as_str(), "opencode");
            assert!(session.cwd.is_none() && !publish);
        }
        _ => panic!("session expected"),
    }
    processor
}

fn observed(env: HookEnvelope, state: &HookState, cache: &mut ProjectCacheStore) -> (
    Processor,
    ProcessAction,
) {
    let mut p = begun(env, state, cache);
    let action = p.step(cache, ProcessReply::Session(Ok(())));
    assert!(matches!(action, ProcessAction::InsertObservation(_)));
    let action = p.step(cache, ProcessReply::Observation(Ok("scrubbed".to_string())));
    match action {
        ProcessAction::AppendLog { ids, title, .. } => {
            assert_eq!(ids, (WorkspaceId(1), ProjectId(2)));
            assert_eq!(title, "scrubbed");
        }
        _ => panic!("log expected"),
    }
    let action = p.step(cache, ProcessReply::Log(Err("disk full".to_string())));
    (p, action)
}

#[test]
fn an_observation_carries_what_the_event_says() {
    let mut cache = ProjectCacheStore::default();
    let mut env = envelope(HookEvent::Other, Some(SID));
    env.extension = Some("fstech".to_string());
    env.source_event = Some("lead.contact".to_string());
    env.title_hint = Some("Lead contacted".to_string());
    env.body_excerpt = Some("Lead Maria requested a proposal".to_string());
    let mut p = begun(env, &state(false, false), &mut cache);
    match p.step(&mut cache, ProcessReply::Session(Ok(()))) {
        ProcessAction::InsertObservation(o) => {
            assert_eq!(o.kind, ObservationKind::Other);
            assert_eq!(o.extension.as_deref(), Some("fstech"));
            assert_eq!(o.source_event.as_deref(), Some("lead.contact"));
            assert_eq!(o.title, "Lead contacted");
            assert_eq!(o.body, "Lead Maria requested a proposal");
            assert_eq!(o.importance, 3);
            assert_eq!(o.session_id, session_from_name(SID));
        }
        _ => panic!("observation expected"),
    }

    let mut p = begun(envelope(HookEvent::Other, Some(SID)), &state(false, false), &mut cache);
    match p.step(&mut cache, ProcessReply::Session(Ok(()))) {
        ProcessAction::InsertObservation(o) => {
            assert_eq!(o.title, "other");
            assert!(o.body.is_empty() && o.extension.is_none() && o.source_event.is_none());
        }
        _ => panic!("observation expected"),
    }
    let action = p.step(&mut cache, ProcessReply::Observation(Err("constraint".to_string())));
    assert!(matches!(action, ProcessAction::Failed { message } if message == "constraint"));
}

#[test]
fn an_ordinary_event_is_done_once_it_is_logged() {
    let mut cache = ProjectCacheStore::default();
    let env = envelope(HookEvent::UserPrompt, Some(SID));
    let (_, action) = observed(env, &state(true, true), &mut cache);
    assert!(matches!(action, ProcessAction::Done));
}

fn facts(name: &str) -> CwdFacts {
    CwdFacts {
        basename: Some(name.to_string()),
        main_repo: None,
        discovered: None,
        canonical: None,
        ancestors: Vec::new(),
    }
}

#[test]
fn a_stale_slot_is_evicted_and_the_session_begun_again() {
    let mut cache = ProjectCacheStore::default();
    let key = cache_key_for(Some("/p"), None, None, ProjectStrategy::RepoRoot);
    cache.insert(key.clone(), (WorkspaceId(5), ProjectId(6)));
    let mut env = envelope(HookEvent::UserPrompt, Some("heal"));
    env.cwd = Some("/p".to_string());
    env.project_strategy = ProjectStrategy::RepoRoot;
    let (mut p, action) = Processor::start(env, &state(false, false), &mut cache).unwrap();
    match action {
        ProcessAction::BeginSession { new_session: session, publish } => {
            assert_eq!(session.project_id, ProjectId(6));
            assert_eq!(session.cwd.as_deref(), Some("/p"));
            assert!(publish);
        }
        _ => panic!("cached project expected"),
    }
    let action = p.step(&mut cache, ProcessReply::Session(Err("foreign key".to_string())));
    assert!(matches!(action, ProcessAction::Resolve(ResolveAction::ReadCwd { .. })));
    assert!(!cache.contains_key(&key));
    p.step(&mut cache, ProcessReply::Resolve(ResolveReply::Facts(facts("p"))));
    let ws = ResolveReply::Workspace(Ok(WorkspaceId(5)));
    p.step(&mut cache, ProcessReply::Resolve(ws));
    p.step(&mut cache, ProcessReply::Resolve(ResolveReply::Projects(Ok(Vec::new()))));
    let project = ResolveReply::Project(Ok(ProjectId(7)));
    match p.step(&mut cache, ProcessReply::Resolve(project)) {
        ProcessAction::BeginSession { new_session: session, .. } => {
            assert_eq!(session.project_id, ProjectId(7))
        }
        _ => panic!("session expected"),
    }
    assert_eq!(cache.get(&key), Some((WorkspaceId(5), ProjectId(7))));
    let action = p.step(&mut cache, ProcessReply::Session(Err("again".to_string())));
    assert!(matches!(action, ProcessAction::Failed { message } if message == "again"));
}

#[test]
fn a_failed_resolution_fails_the_event() {
    let mut cache = ProjectCacheStore::default();
    let mut env = envelope(HookEvent::UserPrompt, Some("x"));
    env.project_override = Some("p".to_string());
    let (mut p, action) = Processor::start(env, &state(false, false), &mut cache).unwrap();
    assert!(matches!(
        action,
        ProcessAction::Resolve(ResolveAction::GetOrCreateWorkspace { .. }),
    ));
    let reply = ResolveReply::Workspace(Err("locked".to_string()));
    let action = p.step(&mut cache, ProcessReply::Resolve(reply));
    assert!(matches!(
        action,
        ProcessAction::Failed { message } if message == "get_or_create_workspace: locked",
    ));
}

fn prompt(body: &str) -> Observation {
    Observation {
        kind: ObservationKind::UserPrompt,
        title: String::new(),
        body: body.to_string(),
    }
}

#[test]
fn a_session_end_writes_page_closing_handoff_and_commit() {
    for (consolidator, on_end) in [(false, false), (false, true), (true, false), (true, true)] {
        let mut cache = ProjectCacheStore::default();
        let env = envelope(HookEvent::SessionEnd, Some(SID));
        let (mut p, action) = observed(env, &state(consolidator, on_end), &mut cache);
        assert!(matches!(action, ProcessAction::LoadObservations { .. }));
        let observations = vec![prompt("fix the bug")];
        match p.step(&mut cache, ProcessReply::Observations(Ok(observations))) {
            ProcessAction::WriteSessionPage { session, observations, .. } => {
                assert_eq!(session, session_from_name(SID));
                assert_eq!(observations.len(), 1);
                assert_eq!(observations[0].body, "fix the bug");
            }
            _ => panic!("page expected"),
        }
        let title = "t".repeat(70);
        let action = p.step(&mut cache, ProcessReply::Page(Ok((PageId(8), title))));
        match action {
            ProcessAction::EndSession { session, page } => {
                assert_eq!(session, session_from_name(SID));
                assert_eq!(page, PageId(8));
            }
            _ => panic!("closing expected"),
        }
        match p.step(&mut cache, ProcessReply::Ended(Ok(()))) {
            ProcessAction::InsertHandoff(h) => {
                assert_eq!(h.summary, "Session focused on: fix the bug");
                assert_eq!(h.from_session_id, Some(session_from_name(SID)));
                assert_eq!(h.from_agent.as_str(), "opencode");
            }
            _ => panic!("handoff expected"),
        }
        let mut action = p.step(&mut cache, ProcessReply::HandoffStored(Ok(())));
        if consolidator && on_end {
            assert!(matches!(action, ProcessAction::ConsolidateSession { .. }));
            action = p.step(&mut cache, ProcessReply::Consolidated(Err("no model".to_string())));
        }
        match action {
            ProcessAction::CommitAll { message } => {
                assert_eq!(message, format!("session 11111111: {}", "t".repeat(60)))
            }
            _ => panic!("commit expected"),
        }
        let action = p.step(&mut cache, ProcessReply::Committed(Err("no git".to_string())));
        assert!(matches!(action, ProcessAction::Done));
    }
}

#[test]
fn a_session_end_fails_where_a_step_fails() {
    let e = || "broken".to_string();
    for failing in 0..4 {
        let mut cache = ProjectCacheStore::default();
        let env = envelope(HookEvent::SessionEnd, Some(SID));
        let (mut p, _) = observed(env, &state(false, false), &mut cache);
        let replies = [
            (ProcessReply::Observations(Ok(Vec::new())), ProcessReply::Observations(Err(e()))),
            (ProcessReply::Page(Ok((PageId(8), e()))), ProcessReply::Page(Err(e()))),
            (ProcessReply::Ended(Ok(())), ProcessReply::Ended(Err(e()))),
            (ProcessReply::HandoffStored(Ok(())), ProcessReply::HandoffStored(Err(e()))),
        ];
        for (i, (ok, err)) in replies.into_iter().enumerate() {
            if i == failing {
                let action = p.step(&mut cache, err);
                assert!(matches!(action, ProcessAction::Failed { message } if message == "broken"));
                break;
            }
            p.step(&mut cache, ok);
        }
    }
}

#[test]
fn a_compaction_is_checkpointed_by_the_model() {
    let mut cache = ProjectCacheStore::default();
    let env = || envelope(HookEvent::PreCompact, Some(SID));
    let (mut p, action) = observed(env(), &state(true, false), &mut cache);
    assert!(matches!(action, ProcessAction::ConsolidateSession { .. }));
    match p.step(&mut cache, ProcessReply::Consolidated(Ok(()))) {
        ProcessAction::CommitAll { message } => {
            assert_eq!(message, "pre-compact(session 11111111): checkpoint")
        }
        _ => panic!("commit expected"),
    }
    let action = p.step(&mut cache, ProcessReply::Committed(Ok(())));
    assert!(matches!(action, ProcessAction::Done));

    let (mut p, _) = observed(env(), &state(true, false), &mut cache);
    let action = p.step(&mut cache, ProcessReply::Consolidated(Err("no model".to_string())));
    assert!(matches!(action, ProcessAction::Done));
}

#[test]
fn a_compaction_is_checkpointed_by_rule() {
    let mut cache = ProjectCacheStore::default();
    let env = || envelope(HookEvent::PreCompact, Some(SID));
    let (mut p, action) = observed(env(), &state(false, true), &mut cache);
    assert!(matches!(action, ProcessAction::LoadObservations { .. }));
    match p.step(&mut cache, ProcessReply::Observations(Ok(vec![prompt("x")]))) {
        ProcessAction::WriteSessionPage { observations, .. } => {
            assert_eq!(observations[0].body, "x")
        }
        _ => panic!("page expected"),
    }
    let action = p.step(&mut cache, ProcessReply::Page(Ok((PageId(8), String::new()))));
    assert!(matches!(action, ProcessAction::CommitAll { .. }));

    for reply in [
        ProcessReply::Observations(Ok(Vec::new())),
        ProcessReply::Observations(Err("unreadable".to_string())),
    ] {
        let (mut p, _) = observed(env(), &state(false, false), &mut cache);
        assert!(matches!(p.step(&mut cache, reply), ProcessAction::Done));
    }
    let (mut p, _) = observed(env(), &state(false, false), &mut cache);
    p.step(&mut cache, ProcessReply::Observations(Ok(vec![prompt("x")])));
    let action = p.step(&mut cache, ProcessReply::Page(Err("full".to_string())));
    assert!(matches!(action, ProcessAction::Done));
}
